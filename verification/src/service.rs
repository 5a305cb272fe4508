use vstd::prelude::*;

verus! {

/// A control request sent by the service manager.
#[derive(PartialEq, Eq, Structural, Clone, Copy, Debug)]
pub enum ControlEvent {
    Stop,
    Interrogate,
    /// Any other control request.
    Other,
}

/// What the control handler reports back to the service manager.
#[derive(PartialEq, Eq, Structural, Clone, Copy, Debug)]
pub enum ControlReply {
    NoError,
    NotImplemented,
}

/// The handler's answer to one control request.
#[derive(PartialEq, Eq, Structural, Clone, Copy, Debug)]
pub struct ControlResponse {
    pub reply: ControlReply,
    /// Whether the service must now stop.
    pub stop_requested: bool,
}

/// Answers a control request: `Stop` is accepted and stops the service,
/// `Interrogate` is accepted and changes nothing, anything else is not implemented.
pub fn respond_to_control(event: ControlEvent) -> (r: ControlResponse)
    ensures
        r.stop_requested <==> event == ControlEvent::Stop,
        event == ControlEvent::Other ==> r.reply == ControlReply::NotImplemented,
        event != ControlEvent::Other ==> r.reply == ControlReply::NoError,
{
    match event {
        ControlEvent::Stop => ControlResponse { reply: ControlReply::NoError, stop_requested: true },
        ControlEvent::Interrogate => ControlResponse {
            reply: ControlReply::NoError,
            stop_requested: false,
        },
        ControlEvent::Other => ControlResponse {
            reply: ControlReply::NotImplemented,
            stop_requested: false,
        },
    }
}

/// The two states the service reports.
#[derive(PartialEq, Eq, Structural, Clone, Copy, Debug)]
pub enum ServicePhase {
    Running,
    Stopped,
}

/// The status reported to the service manager.
#[derive(PartialEq, Eq, Structural, Clone, Copy, Debug)]
pub struct StatusReport {
    pub phase: ServicePhase,
    /// Whether the service accepts `Stop` requests.
    pub accepts_stop: bool,
    /// The Win32 exit code.
    pub exit_code: u32,
    pub checkpoint: u32,
    pub wait_hint_secs: u64,
}

/// The status to report in a phase: a running service accepts `Stop`, a stopped
/// one accepts nothing; both report exit code 0, checkpoint 0 and no wait hint.
pub fn status_report(phase: ServicePhase) -> (r: StatusReport)
    ensures
        r.phase == phase,
        r.accepts_stop <==> phase == ServicePhase::Running,
        r.exit_code == 0,
        r.checkpoint == 0,
        r.wait_hint_secs == 0,
{
    StatusReport {
        phase,
        accepts_stop: match phase {
            ServicePhase::Running => true,
            ServicePhase::Stopped => false,
        },
        exit_code: 0,
        checkpoint: 0,
        wait_hint_secs: 0,
    }
}

} // verus!
