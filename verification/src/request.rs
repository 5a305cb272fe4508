use vstd::prelude::*;
use crate::bytes::{
    ascii_lower, bytes_eq_ignore_ascii_case, bytes_equal, eq_ignore_ascii_case, tokens_match,
};
use crate::http::{
    header_view, listed_headers, parse_request_head, HeaderRef, ParseStatus, SpecHead, SpecParse,
    httparse_request, MAX_HEADERS,
};

verus! {

/// The size of the buffer one request is read into.
pub const READ_BUFFER_SIZE: usize = 512;

/// The bytes of an ASCII text.
pub open spec fn ascii_bytes(s: Seq<char>) -> Seq<u8> {
    Seq::new(s.len(), |i: int| s[i] as u8)
}

/// The only method that reaches the shutdown endpoint.
pub open spec fn shutdown_method() -> Seq<u8> {
    ascii_bytes("POST"@)
}

/// The path of the shutdown endpoint.
pub open spec fn shutdown_path() -> Seq<u8> {
    ascii_bytes("/shutdown"@)
}

/// The header that carries the shared secret (matched without regard to ASCII case).
pub open spec fn auth_header_name() -> Seq<u8> {
    ascii_bytes("x-auth-token"@)
}

fn method_post() -> (r: &'static [u8])
    ensures
        r@ == shutdown_method(),
{
    proof {
        reveal_strlit("POST");
        vstd::utf8::is_ascii_chars_encode_utf8("POST"@);
    }
    let r = "POST".as_bytes();
    assert(r@ =~= shutdown_method());
    r
}

fn path_shutdown() -> (r: &'static [u8])
    ensures
        r@ == shutdown_path(),
{
    proof {
        reveal_strlit("/shutdown");
        vstd::utf8::is_ascii_chars_encode_utf8("/shutdown"@);
    }
    let r = "/shutdown".as_bytes();
    assert(r@ =~= shutdown_path());
    r
}

pub(crate) fn auth_header() -> (r: &'static [u8])
    ensures
        r@ == auth_header_name(),
{
    proof {
        reveal_strlit("x-auth-token");
        vstd::utf8::is_ascii_chars_encode_utf8("x-auth-token"@);
    }
    let r = "x-auth-token".as_bytes();
    assert(r@ =~= auth_header_name());
    r
}

/// The answer sent back for a complete request head.
#[derive(PartialEq, Eq, Structural, Clone, Copy, Debug)]
pub enum Reply {
    /// `200 OK`: the token matched and the machine shuts down.
    Authorized,
    /// `401 Unauthorized`: the endpoint was addressed without a matching token.
    Unauthorized,
    /// `404 Not Found`: any other method or path.
    NotFound,
}

/// What to do with the bytes received on one connection.
#[derive(PartialEq, Eq, Structural, Clone, Copy, Debug)]
pub enum Verdict {
    /// Close the connection without answering.
    NoReply,
    /// Answer with the given reply.
    Respond(Reply),
}

/// The full response text of a reply.
pub open spec fn reply_text(r: Reply) -> Seq<char> {
    match r {
        Reply::Authorized => "HTTP/1.1 200 OK\r\n\r\n"@,
        Reply::Unauthorized => "HTTP/1.1 401 Unauthorized\r\n\r\n"@,
        Reply::NotFound => "HTTP/1.1 404 Not Found\r\n\r\n"@,
    }
}

impl Reply {
    /// The response text to write back to the client.
    pub fn text(&self) -> (s: &'static str)
        ensures
            s@ == reply_text(*self),
    {
        match self {
            Reply::Authorized => "HTTP/1.1 200 OK\r\n\r\n",
            Reply::Unauthorized => "HTTP/1.1 401 Unauthorized\r\n\r\n",
            Reply::NotFound => "HTTP/1.1 404 Not Found\r\n\r\n",
        }
    }
}

/// The head addresses the shutdown endpoint: method `POST`, path `/shutdown`.
pub open spec fn targets_shutdown(head: SpecHead) -> bool {
    head.method == Some(shutdown_method()) && head.path == Some(shutdown_path())
}

/// Some header named `x-auth-token` (in any ASCII case) carries exactly `token`.
pub open spec fn carries_token(headers: Seq<(Seq<u8>, Seq<u8>)>, token: Seq<u8>) -> bool {
    exists|i: int|
        0 <= i < headers.len() && eq_ignore_ascii_case(#[trigger] headers[i].0, auth_header_name())
            && headers[i].1 == token
}

/// The reply owed to a complete head.
pub open spec fn reply_for(head: SpecHead, token: Seq<u8>) -> Reply {
    if !targets_shutdown(head) {
        Reply::NotFound
    } else if carries_token(head.headers, token) {
        Reply::Authorized
    } else {
        Reply::Unauthorized
    }
}

/// The verdict owed to a parse outcome; `None` for bytes the parser rejected.
pub open spec fn verdict_for(parsed: SpecParse, token: Seq<u8>) -> Option<Verdict> {
    match parsed {
        SpecParse::Invalid(_) => None,
        SpecParse::Partial => Some(Verdict::NoReply),
        SpecParse::Complete(head) => Some(Verdict::Respond(reply_for(head, token))),
    }
}

/// Searches the first `count` entries of a header table for an `x-auth-token`
/// header whose value equals `token`.
pub fn has_matching_token(headers: &[HeaderRef], count: usize, token: &[u8]) -> (r: bool)
    ensures
        r == carries_token(listed_headers(headers@, count), token@),
{
    let ghost hs = listed_headers(headers@, count);
    let n = if count <= headers.len() { count } else { headers.len() };
    let name = auth_header();
    let mut i: usize = 0;
    while i < n
        invariant
            n <= headers@.len(),
            i <= n,
            hs == listed_headers(headers@, count),
            hs.len() == n,
            forall|j: int| 0 <= j < n ==> #[trigger] hs[j] == header_view(headers@[j]),
            name@ == auth_header_name(),
            forall|j: int|
                0 <= j < i ==> !(eq_ignore_ascii_case(#[trigger] hs[j].0, auth_header_name())
                    && hs[j].1 == token@),
        decreases n - i,
    {
        let h = headers[i];
        if bytes_eq_ignore_ascii_case(h.name, name) {
            if tokens_match(h.value, token) {
                assert(hs[i as int] == header_view(headers@[i as int]));
                assert(hs[i as int].0 == h.name@ && hs[i as int].1 == h.value@);
                assert(eq_ignore_ascii_case(hs[i as int].0, auth_header_name()) && hs[i as int].1
                    == token@);
                return true;
            }
        }
        i = i + 1;
    }
    false
}

/// Decides what to answer to a parse outcome.
pub fn decide_request(status: &ParseStatus, expected_token: &[u8]) -> (v: Verdict)
    ensures
        verdict_for(status.spec_parse(), expected_token@) == Some(v),
{
    match status {
        ParseStatus::Partial => Verdict::NoReply,
        ParseStatus::Complete(head) => {
            let post = method_post();
            let path = path_shutdown();
            let method_ok = match &head.method {
                Some(m) => bytes_equal(m, post),
                None => false,
            };
            let path_ok = match &head.path {
                Some(p) => bytes_equal(p, path),
                None => false,
            };
            if !(method_ok && path_ok) {
                Verdict::Respond(Reply::NotFound)
            } else if has_matching_token(head.headers.as_slice(), head.header_count, expected_token) {
                Verdict::Respond(Reply::Authorized)
            } else {
                Verdict::Respond(Reply::Unauthorized)
            }
        },
    }
}

/// Handles the bytes read from one connection: an empty read gets no answer;
/// otherwise the bytes are parsed as an HTTP/1 request head. A head that is not
/// complete gets no answer, bytes the parser rejects give its error, and a
/// complete head gets the reply that `reply_for` assigns.
pub fn handle_request(received: &[u8], expected_token: &[u8]) -> (res: Result<Verdict, httparse::Error>)
    ensures
        received@.len() == 0 ==> res == Ok::<Verdict, httparse::Error>(Verdict::NoReply),
        received@.len() > 0 ==> match verdict_for(httparse_request(received@, MAX_HEADERS), expected_token@) {
            Some(v) => res == Ok::<Verdict, httparse::Error>(v),
            None => res is Err,
        },
        received@.len() > 0 ==> (httparse_request(received@, MAX_HEADERS) matches SpecParse::Invalid(e)
            ==> res == Err::<Verdict, httparse::Error>(e)),
{
    if received.len() == 0 {
        return Ok(Verdict::NoReply);
    }
    let parsed = parse_request_head(received, MAX_HEADERS);
    match parsed {
        Ok(status) => Ok(decide_request(&status, expected_token)),
        Err(e) => Err(e),
    }
}

/// A connection is answered `200 OK` (and so shuts the machine down) exactly
/// when its bytes form a complete `POST /shutdown` head with an `x-auth-token`
/// header whose value is the expected token.
pub proof fn lemma_authorized_exactly_with_token(parsed: SpecParse, token: Seq<u8>)
    ensures
        verdict_for(parsed, token) == Some(Verdict::Respond(Reply::Authorized)) <==> (
        parsed matches SpecParse::Complete(h) && targets_shutdown(h) && carries_token(
            h.headers,
            token,
        )),
{
}

/// The ASCII case of header names does not change the reply.
pub proof fn lemma_header_case_irrelevant(h1: SpecHead, h2: SpecHead, token: Seq<u8>)
    requires
        h1.method == h2.method,
        h1.path == h2.path,
        h1.headers.len() == h2.headers.len(),
        forall|i: int|
            0 <= i < h1.headers.len() ==> eq_ignore_ascii_case(
                #[trigger] h1.headers[i].0,
                h2.headers[i].0,
            ) && h1.headers[i].1 == h2.headers[i].1,
    ensures
        reply_for(h1, token) == reply_for(h2, token),
{
    if carries_token(h1.headers, token) {
        let i = choose|i: int|
            0 <= i < h1.headers.len() && eq_ignore_ascii_case(
                #[trigger] h1.headers[i].0,
                auth_header_name(),
            ) && h1.headers[i].1 == token;
        let (a, b, n) = (h1.headers[i].0, h2.headers[i].0, auth_header_name());
        assert(eq_ignore_ascii_case(a, b));
        assert forall|j: int| 0 <= j < b.len() implies #[trigger] ascii_lower(b[j]) == ascii_lower(
            n[j],
        ) by {
            assert(ascii_lower(a[j]) == ascii_lower(b[j]));
            assert(ascii_lower(a[j]) == ascii_lower(n[j]));
        }
        assert(eq_ignore_ascii_case(b, n));
    }
    if carries_token(h2.headers, token) {
        let i = choose|i: int|
            0 <= i < h2.headers.len() && eq_ignore_ascii_case(
                #[trigger] h2.headers[i].0,
                auth_header_name(),
            ) && h2.headers[i].1 == token;
        let (a, b, n) = (h1.headers[i].0, h2.headers[i].0, auth_header_name());
        assert(eq_ignore_ascii_case(a, b));
        assert forall|j: int| 0 <= j < a.len() implies #[trigger] ascii_lower(a[j]) == ascii_lower(
            n[j],
        ) by {
            assert(ascii_lower(a[j]) == ascii_lower(b[j]));
            assert(ascii_lower(b[j]) == ascii_lower(n[j]));
        }
        assert(eq_ignore_ascii_case(a, n));
    }
}

/// A complete `POST /shutdown` head is answered `200 OK` as soon as one of its
/// headers, at any position, is named `x-auth-token` in any ASCII case and
/// carries exactly the expected token, whatever that token's length.
pub proof fn lemma_token_header_anywhere_authorizes(h: SpecHead, token: Seq<u8>, i: int)
    requires
        h.method == Some(ascii_bytes("POST"@)),
        h.path == Some(ascii_bytes("/shutdown"@)),
        0 <= i < h.headers.len(),
        eq_ignore_ascii_case(h.headers[i].0, ascii_bytes("x-auth-token"@)),
        h.headers[i].1 == token,
    ensures
        reply_for(h, token) == Reply::Authorized,
{
    assert(eq_ignore_ascii_case(h.headers[i].0, auth_header_name()) && h.headers[i].1 == token);
}

/// A complete `POST /shutdown` head in which no `x-auth-token` header carries
/// exactly the expected token is answered `401 Unauthorized`.
pub proof fn lemma_no_matching_header_unauthorized(h: SpecHead, token: Seq<u8>)
    requires
        h.method == Some(ascii_bytes("POST"@)),
        h.path == Some(ascii_bytes("/shutdown"@)),
        forall|i: int|
            0 <= i < h.headers.len() ==> !(eq_ignore_ascii_case(
                #[trigger] h.headers[i].0,
                ascii_bytes("x-auth-token"@),
            ) && h.headers[i].1 == token),
    ensures
        reply_for(h, token) == Reply::Unauthorized,
{
}

/// Any other method or path is answered `404 Not Found`, whatever the headers.
pub proof fn lemma_other_route_not_found(h: SpecHead, token: Seq<u8>)
    requires
        h.method != Some(ascii_bytes("POST"@)) || h.path != Some(ascii_bytes("/shutdown"@)),
    ensures
        reply_for(h, token) == Reply::NotFound,
{
}

/// Headers that are not named `x-auth-token` (in any ASCII case), put in front
/// of the others, never change the reply.
pub proof fn lemma_unrelated_headers_irrelevant(
    h: SpecHead,
    extra: Seq<(Seq<u8>, Seq<u8>)>,
    token: Seq<u8>,
)
    requires
        forall|j: int|
            0 <= j < extra.len() ==> !eq_ignore_ascii_case(
                #[trigger] extra[j].0,
                ascii_bytes("x-auth-token"@),
            ),
    ensures
        reply_for(SpecHead { headers: extra + h.headers, ..h }, token) == reply_for(h, token),
{
    let hs = extra + h.headers;
    if carries_token(h.headers, token) {
        let i = choose|i: int|
            0 <= i < h.headers.len() && eq_ignore_ascii_case(
                #[trigger] h.headers[i].0,
                auth_header_name(),
            ) && h.headers[i].1 == token;
        assert(hs[extra.len() + i] == h.headers[i]);
        assert(carries_token(hs, token));
    }
    if carries_token(hs, token) {
        let i = choose|i: int|
            0 <= i < hs.len() && eq_ignore_ascii_case(#[trigger] hs[i].0, auth_header_name())
                && hs[i].1 == token;
        if i < extra.len() {
            assert(hs[i] == extra[i]);
        } else {
            assert(hs[i] == h.headers[i - extra.len()]);
            assert(carries_token(h.headers, token));
        }
    }
}

} // verus!
