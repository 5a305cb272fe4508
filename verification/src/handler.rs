use vstd::prelude::*;
use crate::bytes::{bytes_eq_ignore_ascii_case, eq_ignore_ascii_case, tokens_match};
use crate::config::Config;
use crate::http::{headers_view, HeaderRef};
use crate::request::{auth_header, auth_header_name};

verus! {

/// The first header named `x-auth-token` (in any ASCII case) carries exactly `token`;
/// later headers of that name are not looked at.
pub open spec fn first_token_is(headers: Seq<(Seq<u8>, Seq<u8>)>, token: Seq<u8>) -> bool {
    exists|i: int|
        0 <= i < headers.len() && eq_ignore_ascii_case(#[trigger] headers[i].0, auth_header_name())
            && (forall|j: int|
            0 <= j < i ==> !eq_ignore_ascii_case(#[trigger] headers[j].0, auth_header_name()))
            && headers[i].1 == token
}

/// The bytes of the configured token.
pub open spec fn token_bytes(config: Config) -> Seq<u8> {
    vstd::utf8::encode_utf8(config.auth_token@)
}

/// The answer of the shutdown endpoint.
#[derive(PartialEq, Eq, Structural, Clone, Copy, Debug)]
pub enum HandlerOutcome {
    /// The shutdown was started: `200 OK`, "Shutdown initiated".
    ShutdownInitiated,
    /// Starting the shutdown failed: `500 Internal Server Error`, "Failed to shutdown".
    ShutdownFailed,
    /// The token was missing or wrong: `401 Unauthorized`, "Unauthorized".
    Unauthorized,
}

/// The next step of the shutdown endpoint for one request.
#[derive(PartialEq, Eq, Structural, Clone, Copy, Debug)]
pub enum HandlerStep {
    /// Start the shutdown, then answer with `shutdown_outcome` of its success.
    ShutDown,
    /// Answer at once.
    Respond(HandlerOutcome),
}

pub open spec fn outcome_status(o: HandlerOutcome) -> u16 {
    match o {
        HandlerOutcome::ShutdownInitiated => 200,
        HandlerOutcome::ShutdownFailed => 500,
        HandlerOutcome::Unauthorized => 401,
    }
}

pub open spec fn outcome_body(o: HandlerOutcome) -> Seq<char> {
    match o {
        HandlerOutcome::ShutdownInitiated => "Shutdown initiated"@,
        HandlerOutcome::ShutdownFailed => "Failed to shutdown"@,
        HandlerOutcome::Unauthorized => "Unauthorized"@,
    }
}

impl HandlerOutcome {
    /// The HTTP status code of the answer.
    pub fn status(&self) -> (s: u16)
        ensures
            s == outcome_status(*self),
    {
        match self {
            HandlerOutcome::ShutdownInitiated => 200,
            HandlerOutcome::ShutdownFailed => 500,
            HandlerOutcome::Unauthorized => 401,
        }
    }

    /// The body text of the answer.
    pub fn body(&self) -> (s: &'static str)
        ensures
            s@ == outcome_body(*self),
    {
        match self {
            HandlerOutcome::ShutdownInitiated => "Shutdown initiated",
            HandlerOutcome::ShutdownFailed => "Failed to shutdown",
            HandlerOutcome::Unauthorized => "Unauthorized",
        }
    }
}

/// Checks that the first `x-auth-token` header equals the configured token; the
/// comparison takes the same time for every value of the token's length.
pub fn token_accepted(headers: &[HeaderRef], config: &Config) -> (ok: bool)
    ensures
        ok == first_token_is(headers_view(headers@), token_bytes(*config)),
{
    let ghost hs = headers_view(headers@);
    let token = config.auth_token.as_str().as_bytes();
    let name = auth_header();
    let mut i: usize = 0;
    while i < headers.len()
        invariant
            i <= headers@.len(),
            hs == headers_view(headers@),
            name@ == auth_header_name(),
            token@ == token_bytes(*config),
            forall|j: int| 0 <= j < i ==> !eq_ignore_ascii_case(#[trigger] hs[j].0, auth_header_name()),
        decreases headers@.len() - i,
    {
        let h = headers[i];
        if bytes_eq_ignore_ascii_case(h.name, name) {
            assert(hs[i as int].0 == h.name@);
            let same = tokens_match(h.value, token);
            if !same {
                assert forall|k: int|
                    0 <= k < hs.len() && eq_ignore_ascii_case(#[trigger] hs[k].0, auth_header_name())
                        && (forall|j: int|
                        0 <= j < k ==> !eq_ignore_ascii_case(#[trigger] hs[j].0, auth_header_name()))
                    implies hs[k].1 != token@ by {
                    if k > i {
                        assert(!eq_ignore_ascii_case(hs[i as int].0, auth_header_name()));
                    }
                }
            }
            return same;
        }
        i = i + 1;
    }
    false
}

/// Decides how the shutdown endpoint answers a request with the given headers:
/// with the configured token in the first `x-auth-token` header it shuts down,
/// otherwise it answers `401 Unauthorized`.
pub fn shutdown_step(headers: &[HeaderRef], config: &Config) -> (step: HandlerStep)
    ensures
        first_token_is(headers_view(headers@), token_bytes(*config)) ==> step == HandlerStep::ShutDown,
        !first_token_is(headers_view(headers@), token_bytes(*config)) ==> step
            == HandlerStep::Respond(HandlerOutcome::Unauthorized),
{
    if token_accepted(headers, config) {
        HandlerStep::ShutDown
    } else {
        HandlerStep::Respond(HandlerOutcome::Unauthorized)
    }
}

/// The answer after an attempted shutdown.
pub fn shutdown_outcome(succeeded: bool) -> (o: HandlerOutcome)
    ensures
        succeeded ==> o == HandlerOutcome::ShutdownInitiated,
        !succeeded ==> o == HandlerOutcome::ShutdownFailed,
{
    if succeeded {
        HandlerOutcome::ShutdownInitiated
    } else {
        HandlerOutcome::ShutdownFailed
    }
}

/// The first header named `x-auth-token` (in any ASCII case), wherever it
/// stands, decides: the request is accepted exactly when that header carries the
/// token.
pub proof fn lemma_first_token_header_decides(hs: Seq<(Seq<u8>, Seq<u8>)>, token: Seq<u8>, i: int)
    requires
        0 <= i < hs.len(),
        eq_ignore_ascii_case(hs[i].0, crate::request::ascii_bytes("x-auth-token"@)),
        forall|j: int|
            0 <= j < i ==> !eq_ignore_ascii_case(
                #[trigger] hs[j].0,
                crate::request::ascii_bytes("x-auth-token"@),
            ),
    ensures
        first_token_is(hs, token) <==> hs[i].1 == token,
{
    if first_token_is(hs, token) {
        let k = choose|k: int|
            0 <= k < hs.len() && eq_ignore_ascii_case(#[trigger] hs[k].0, auth_header_name()) && (
            forall|j: int|
                0 <= j < k ==> !eq_ignore_ascii_case(#[trigger] hs[j].0, auth_header_name()))
                && hs[k].1 == token;
        if k < i {
            assert(!eq_ignore_ascii_case(hs[k].0, auth_header_name()));
        } else if k > i {
            assert(!eq_ignore_ascii_case(hs[i].0, auth_header_name()));
        }
    }
    if hs[i].1 == token {
        assert(eq_ignore_ascii_case(hs[i].0, auth_header_name()));
    }
}

/// Headers not named `x-auth-token` (in any ASCII case), put in front of the
/// others, never change whether the request is accepted.
pub proof fn lemma_unrelated_headers_ignored(
    extra: Seq<(Seq<u8>, Seq<u8>)>,
    hs: Seq<(Seq<u8>, Seq<u8>)>,
    token: Seq<u8>,
)
    requires
        forall|j: int|
            0 <= j < extra.len() ==> !eq_ignore_ascii_case(
                #[trigger] extra[j].0,
                crate::request::ascii_bytes("x-auth-token"@),
            ),
    ensures
        first_token_is(extra + hs, token) == first_token_is(hs, token),
{
    let all = extra + hs;
    if first_token_is(hs, token) {
        let k = choose|k: int|
            0 <= k < hs.len() && eq_ignore_ascii_case(#[trigger] hs[k].0, auth_header_name()) && (
            forall|j: int|
                0 <= j < k ==> !eq_ignore_ascii_case(#[trigger] hs[j].0, auth_header_name()))
                && hs[k].1 == token;
        let m = extra.len() + k;
        assert(all[m] == hs[k]);
        assert forall|j: int| 0 <= j < m implies !eq_ignore_ascii_case(
            #[trigger] all[j].0,
            auth_header_name(),
        ) by {
            if j < extra.len() {
                assert(all[j] == extra[j]);
            } else {
                assert(all[j] == hs[j - extra.len()]);
            }
        }
        assert(first_token_is(all, token));
    }
    if first_token_is(all, token) {
        let k = choose|k: int|
            0 <= k < all.len() && eq_ignore_ascii_case(#[trigger] all[k].0, auth_header_name()) && (
            forall|j: int|
                0 <= j < k ==> !eq_ignore_ascii_case(#[trigger] all[j].0, auth_header_name()))
                && all[k].1 == token;
        if k < extra.len() {
            assert(all[k] == extra[k]);
        } else {
            let m = k - extra.len();
            assert(all[k] == hs[m]);
            assert forall|j: int| 0 <= j < m implies !eq_ignore_ascii_case(
                #[trigger] hs[j].0,
                auth_header_name(),
            ) by {
                assert(all[j + extra.len()] == hs[j]);
                assert(!eq_ignore_ascii_case(all[j + extra.len()].0, auth_header_name()));
            }
            assert(first_token_is(hs, token));
        }
    }
}

} // verus!
