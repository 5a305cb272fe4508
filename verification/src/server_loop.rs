use vstd::prelude::*;
use vstd::string::*;

verus! {

/// Settings of the listening loop, taken from the environment.
pub struct Settings {
    pub log_dir: String,
    pub bind_address: String,
    pub auth_token: String,
}

/// The value of a setting: the one given, or the default.
pub open spec fn setting_or(given: Option<String>, default: Seq<char>) -> Seq<char> {
    match given {
        Some(s) => s@,
        None => default,
    }
}

fn or_default(given: Option<String>, default: &str) -> (s: String)
    ensures
        s@ == setting_or(given, default@),
        given matches Some(v) ==> s@ == v@,
        given is None ==> s@ == default@,
{
    match given {
        Some(s) => s,
        None => String::from_str(default),
    }
}

/// Builds the settings from the values of `LOG_DIR`, `BIND_ADDRESS` and
/// `AUTH_TOKEN` (`None` where a variable is unset); unset ones take the
/// defaults `logs`, `127.0.0.1:8080` and `change-me-secret-token`.
pub fn settings_from_env(
    log_dir: Option<String>,
    bind_address: Option<String>,
    auth_token: Option<String>,
) -> (s: Settings)
    ensures
        s.log_dir@ == setting_or(log_dir, "logs"@),
        s.bind_address@ == setting_or(bind_address, "127.0.0.1:8080"@),
        s.auth_token@ == setting_or(auth_token, "change-me-secret-token"@),
        log_dir matches Some(v) ==> s.log_dir@ == v@,
        bind_address matches Some(v) ==> s.bind_address@ == v@,
        auth_token matches Some(v) ==> s.auth_token@ == v@,
        log_dir is None ==> s.log_dir@ == "logs"@,
        bind_address is None ==> s.bind_address@ == "127.0.0.1:8080"@,
        auth_token is None ==> s.auth_token@ == "change-me-secret-token"@,
{
    Settings {
        log_dir: or_default(log_dir, "logs"),
        bind_address: or_default(bind_address, "127.0.0.1:8080"),
        auth_token: or_default(auth_token, "change-me-secret-token"),
    }
}

/// A value that is given is kept exactly, whatever its length or content; the
/// default stands in only for an unset value.
pub proof fn lemma_given_setting_kept(v: String, default: Seq<char>)
    ensures
        setting_or(Some(v), default) == v@,
        setting_or(None, default) == default,
{
}

/// What happened on one turn of the listening loop.
#[derive(PartialEq, Eq, Structural, Clone, Copy, Debug)]
pub enum ConnectionEvent {
    /// Accepting a connection failed.
    AcceptFailed,
    /// Reading, parsing or answering the request failed.
    HandlingFailed,
    /// The request was answered; `authorized` tells whether it asked for, and
    /// was granted, the shutdown.
    Handled { authorized: bool },
}

/// What the loop does next.
#[derive(PartialEq, Eq, Structural, Clone, Copy, Debug)]
pub enum LoopAction {
    /// Wait for the next connection.
    Continue,
    /// Shut the machine down and leave the loop.
    ShutDown,
    /// The loop was already left; nothing is done.
    Halted,
}

/// One step of the listening loop: from whether it has stopped and an event, to
/// whether it has stopped afterwards and the action.
pub open spec fn loop_step(stopped: bool, ev: ConnectionEvent) -> (bool, LoopAction) {
    if stopped {
        (true, LoopAction::Halted)
    } else if ev == (ConnectionEvent::Handled { authorized: true }) {
        (true, LoopAction::ShutDown)
    } else {
        (false, LoopAction::Continue)
    }
}

/// The actions taken for a sequence of events.
pub open spec fn loop_trace(stopped: bool, events: Seq<ConnectionEvent>) -> Seq<LoopAction>
    decreases events.len(),
{
    if events.len() == 0 {
        Seq::empty()
    } else {
        let (next, action) = loop_step(stopped, events[0]);
        seq![action] + loop_trace(next, events.drop_first())
    }
}

/// How many shutdowns a sequence of actions holds.
pub open spec fn shutdown_count(actions: Seq<LoopAction>) -> nat
    decreases actions.len(),
{
    if actions.len() == 0 {
        0
    } else {
        (if actions[0] == LoopAction::ShutDown { 1nat } else { 0nat }) + shutdown_count(
            actions.drop_first(),
        )
    }
}

/// The state of the listening loop.
pub struct ServerLoop {
    stopped: bool,
}

impl ServerLoop {
    pub closed spec fn is_stopped(&self) -> bool {
        self.stopped
    }

    /// A loop that is listening.
    pub fn new() -> (l: ServerLoop)
        ensures
            !l.is_stopped(),
    {
        ServerLoop { stopped: false }
    }

    /// Whether the loop has been left.
    pub fn stopped(&self) -> (b: bool)
        ensures
            b == self.is_stopped(),
    {
        self.stopped
    }

    /// Takes one event: the first authorized request shuts the machine down and
    /// ends the loop; failures and other requests are logged and the loop goes on.
    pub fn on_event(&mut self, ev: ConnectionEvent) -> (action: LoopAction)
        ensures
            (final(self).is_stopped(), action) == loop_step(old(self).is_stopped(), ev),
    {
        if self.stopped {
            LoopAction::Halted
        } else {
            match ev {
                ConnectionEvent::Handled { authorized: true } => {
                    self.stopped = true;
                    LoopAction::ShutDown
                },
                _ => LoopAction::Continue,
            }
        }
    }
}

/// The machine is shut down at most once, whatever connections arrive; a loop
/// that has stopped shuts nothing down.
pub proof fn lemma_at_most_one_shutdown(stopped: bool, events: Seq<ConnectionEvent>)
    ensures
        shutdown_count(loop_trace(stopped, events)) <= 1,
        stopped ==> shutdown_count(loop_trace(stopped, events)) == 0,
    decreases events.len(),
{
    if events.len() > 0 {
        let (next, action) = loop_step(stopped, events[0]);
        lemma_at_most_one_shutdown(next, events.drop_first());
        let t = loop_trace(stopped, events);
        assert(t.drop_first() =~= loop_trace(next, events.drop_first()));
    }
}

/// A listening loop shuts the machine down exactly when some request is
/// authorized, and it does so on the first such request.
pub proof fn lemma_shutdown_on_first_authorized(events: Seq<ConnectionEvent>, k: int)
    requires
        0 <= k < events.len(),
        events[k] == (ConnectionEvent::Handled { authorized: true }),
        forall|j: int|
            0 <= j < k ==> events[j] != (ConnectionEvent::Handled { authorized: true }),
    ensures
        loop_trace(false, events).len() == events.len(),
        loop_trace(false, events)[k] == LoopAction::ShutDown,
        forall|j: int| 0 <= j < k ==> loop_trace(false, events)[j] == LoopAction::Continue,
        forall|j: int| k < j < events.len() ==> loop_trace(false, events)[j] == LoopAction::Halted,
    decreases events.len(),
{
    lemma_trace_len(false, events);
    if k > 0 {
        lemma_shutdown_on_first_authorized(events.drop_first(), k - 1);
        assert(loop_trace(false, events).drop_first() =~= loop_trace(false, events.drop_first()));
        assert forall|j: int| 0 <= j < k implies loop_trace(false, events)[j] == LoopAction::Continue by {
            if j > 0 {
                assert(loop_trace(false, events)[j] == loop_trace(false, events.drop_first())[j - 1]);
            }
        }
        assert forall|j: int| k < j < events.len() implies loop_trace(false, events)[j]
            == LoopAction::Halted by {
            assert(loop_trace(false, events)[j] == loop_trace(false, events.drop_first())[j - 1]);
        }
    } else {
        lemma_halted_after_stop(events.drop_first());
        assert forall|j: int| k < j < events.len() implies loop_trace(false, events)[j]
            == LoopAction::Halted by {
            assert(loop_trace(false, events)[j] == loop_trace(true, events.drop_first())[j - 1]);
        }
    }
}

/// A listening loop that never sees an authorized request never shuts down.
pub proof fn lemma_no_shutdown_without_authorization(events: Seq<ConnectionEvent>)
    requires
        forall|j: int|
            0 <= j < events.len() ==> events[j] != (ConnectionEvent::Handled { authorized: true }),
    ensures
        shutdown_count(loop_trace(false, events)) == 0,
    decreases events.len(),
{
    if events.len() > 0 {
        lemma_no_shutdown_without_authorization(events.drop_first());
        assert(loop_trace(false, events).drop_first() =~= loop_trace(false, events.drop_first()));
    }
}

proof fn lemma_trace_len(stopped: bool, events: Seq<ConnectionEvent>)
    ensures
        loop_trace(stopped, events).len() == events.len(),
    decreases events.len(),
{
    if events.len() > 0 {
        let (next, action) = loop_step(stopped, events[0]);
        lemma_trace_len(next, events.drop_first());
    }
}

proof fn lemma_halted_after_stop(events: Seq<ConnectionEvent>)
    ensures
        loop_trace(true, events).len() == events.len(),
        forall|j: int| 0 <= j < events.len() ==> loop_trace(true, events)[j] == LoopAction::Halted,
    decreases events.len(),
{
    lemma_trace_len(true, events);
    if events.len() > 0 {
        lemma_halted_after_stop(events.drop_first());
        assert forall|j: int| 0 <= j < events.len() implies loop_trace(true, events)[j]
            == LoopAction::Halted by {
            if j > 0 {
                assert(loop_trace(true, events)[j] == loop_trace(true, events.drop_first())[j - 1]);
            }
        }
    }
}

} // verus!
