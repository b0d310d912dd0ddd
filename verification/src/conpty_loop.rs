use vstd::prelude::*;

use crate::text::{concat3, decimal, owned, strings_view, u64_to_string};

verus! {

/// What the threads of a ConPTY session report to its event loop.
#[derive(Debug)]
pub enum ConptyEvent {
    FirstOutput { bytes: usize },
    OutputChunk { bytes: usize },
    ChildExited { exit_code: Option<i32> },
    StartupTimeout,
    UserAbort,
    OutputError { message: String },
    InputError { message: String },
}

/// A message on the event loop's channel.
#[derive(Debug)]
pub enum ConptyLoopMessage {
    Event(ConptyEvent),
    ChildWaitError { message: String },
}

/// How a ConPTY session ended when it did not end with the child's exit.
#[derive(Debug, Clone, Copy, PartialEq, Eq, Structural)]
pub enum ConptyFailureStatus {
    Failed,
    Aborted,
}

/// The stage a ConPTY session was in when it stopped.
#[derive(Debug, Clone, Copy, PartialEq, Eq, Structural)]
pub enum ConptyFailurePhase {
    CreateLog,
    OpenPty,
    EnterRawMode,
    SpawnChild,
    ChildWait,
    WaitingInitialOutput,
    UserAbort,
    OutputBridge,
    InputBridge,
}

/// Why a ConPTY session stopped.
#[derive(Debug, Clone, Copy, PartialEq, Eq, Structural)]
pub enum ConptyFailureReason {
    CreateLogFailed,
    OpenPtyFailed,
    RawModeFailed,
    SpawnChildFailed,
    ChildWaitFailed,
    InitialOutputTimeout,
    CtrlC,
    OutputBridgeFailed,
    InputBridgeFailed,
}

/// A ConPTY session that stopped before its child exited.
#[derive(Debug)]
pub struct ConptyChildFailure {
    pub status: ConptyFailureStatus,
    pub phase: ConptyFailurePhase,
    pub reason: ConptyFailureReason,
    pub error: String,
}

/// What the event loop does with one message.
#[derive(Debug)]
pub enum ConptyLoopAction {
    /// Keep waiting for the next message.
    Continue,
    /// The child exited, with its exit code where one is known.
    Exited(Option<i32>),
    /// Stop the session: kill the child where asked, print the notice lines on the error
    /// stream, and report the failure.
    Fail { kill_child: bool, notice: Vec<String>, failure: ConptyChildFailure },
}

/// The action is a failure with exactly these parts.
pub open spec fn fails_with(
    action: ConptyLoopAction,
    kill_child: bool,
    notice: Seq<Seq<char>>,
    status: ConptyFailureStatus,
    phase: ConptyFailurePhase,
    reason: ConptyFailureReason,
    error: Seq<char>,
) -> bool {
    match action {
        ConptyLoopAction::Fail { kill_child: k, notice: n, failure } => k == kill_child && strings_view(n@)
            == notice && failure.status == status && failure.phase == phase && failure.reason == reason
            && failure.error@ == error,
        _ => false,
    }
}

/// The error text of a start-up timeout of `secs` seconds.
pub open spec fn startup_timeout_error(secs: u64) -> Seq<char> {
    "no ConPTY output received within "@ + decimal(secs as nat) + " seconds"@
}

fn no_notice() -> (r: Vec<String>)
    ensures
        strings_view(r@) == Seq::<Seq<char>>::empty(),
{
    let r: Vec<String> = Vec::new();
    assert(strings_view(r@) =~= Seq::<Seq<char>>::empty());
    r
}

fn failure_action(
    kill_child: bool,
    notice: Vec<String>,
    status: ConptyFailureStatus,
    phase: ConptyFailurePhase,
    reason: ConptyFailureReason,
    error: String,
) -> (r: ConptyLoopAction)
    ensures
        fails_with(r, kill_child, strings_view(notice@), status, phase, reason, error@),
{
    ConptyLoopAction::Fail { kill_child, notice, failure: ConptyChildFailure { status, phase, reason, error } }
}

/// One turn of the ConPTY event loop: the bytes seen so far, whether the child has written
/// anything, the start-up timeout in seconds where one is set, and the message received
/// (`None` where the channel closed), to the new byte count and the action.
pub fn conpty_loop_step(
    output_bytes: u64,
    first_output_received: bool,
    startup_timeout_secs: Option<u64>,
    message: Option<ConptyLoopMessage>,
) -> (r: (u64, ConptyLoopAction))
    requires
        message matches Some(ConptyLoopMessage::Event(ConptyEvent::OutputChunk { bytes })) ==> output_bytes
            + bytes <= u64::MAX,
    ensures
        match message {
            None => r.0 == output_bytes && fails_with(
                r.1,
                false,
                Seq::empty(),
                ConptyFailureStatus::Failed,
                ConptyFailurePhase::ChildWait,
                ConptyFailureReason::ChildWaitFailed,
                "ConPTY event loop ended without child status"@,
            ),
            Some(ConptyLoopMessage::Event(ConptyEvent::FirstOutput { .. })) => r.0 == output_bytes
                && r.1 is Continue,
            Some(ConptyLoopMessage::Event(ConptyEvent::OutputChunk { bytes })) => r.0 == output_bytes
                + bytes && r.1 is Continue,
            Some(ConptyLoopMessage::Event(ConptyEvent::ChildExited { exit_code })) => r.0 == output_bytes
                && r.1 == ConptyLoopAction::Exited(exit_code),
            Some(ConptyLoopMessage::Event(ConptyEvent::StartupTimeout)) => r.0 == output_bytes && if first_output_received {
                r.1 is Continue
            } else {
                fails_with(
                    r.1,
                    true,
                    Seq::<Seq<char>>::empty().push(Seq::<char>::empty()).push(
                        "Error: "@ + startup_timeout_error(startup_timeout_secs.unwrap_or(0)) + "."@,
                    ).push("Aborting ConPTY child..."@),
                    ConptyFailureStatus::Failed,
                    ConptyFailurePhase::WaitingInitialOutput,
                    ConptyFailureReason::InitialOutputTimeout,
                    startup_timeout_error(startup_timeout_secs.unwrap_or(0)),
                )
            },
            Some(ConptyLoopMessage::Event(ConptyEvent::UserAbort)) => r.0 == output_bytes && fails_with(
                r.1,
                true,
                Seq::empty(),
                ConptyFailureStatus::Aborted,
                ConptyFailurePhase::UserAbort,
                ConptyFailureReason::CtrlC,
                "aborted by Ctrl-C"@,
            ),
            Some(ConptyLoopMessage::Event(ConptyEvent::OutputError { message })) => r.0 == output_bytes
                && fails_with(
                r.1,
                true,
                Seq::empty(),
                ConptyFailureStatus::Failed,
                ConptyFailurePhase::OutputBridge,
                ConptyFailureReason::OutputBridgeFailed,
                message@,
            ),
            Some(ConptyLoopMessage::Event(ConptyEvent::InputError { message })) => r.0 == output_bytes
                && fails_with(
                r.1,
                true,
                Seq::empty(),
                ConptyFailureStatus::Failed,
                ConptyFailurePhase::InputBridge,
                ConptyFailureReason::InputBridgeFailed,
                message@,
            ),
            Some(ConptyLoopMessage::ChildWaitError { message }) => r.0 == output_bytes && fails_with(
                r.1,
                true,
                seq!["Warning: ConPTY child process exit could not be confirmed."@],
                ConptyFailureStatus::Failed,
                ConptyFailurePhase::ChildWait,
                ConptyFailureReason::ChildWaitFailed,
                message@,
            ),
        },
{
    match message {
        None => (
            output_bytes,
            failure_action(
                false,
                no_notice(),
                ConptyFailureStatus::Failed,
                ConptyFailurePhase::ChildWait,
                ConptyFailureReason::ChildWaitFailed,
                owned("ConPTY event loop ended without child status"),
            ),
        ),
        Some(ConptyLoopMessage::Event(event)) => match event {
            ConptyEvent::FirstOutput { .. } => (output_bytes, ConptyLoopAction::Continue),
            ConptyEvent::OutputChunk { bytes } => (output_bytes + bytes as u64, ConptyLoopAction::Continue),
            ConptyEvent::ChildExited { exit_code } => (output_bytes, ConptyLoopAction::Exited(exit_code)),
            ConptyEvent::StartupTimeout => {
                if first_output_received {
                    (output_bytes, ConptyLoopAction::Continue)
                } else {
                    let secs = match startup_timeout_secs {
                        Some(s) => s,
                        None => 0,
                    };
                    assert(secs == startup_timeout_secs.unwrap_or(0));
                    let seconds = u64_to_string(secs);
                    let error = concat3("no ConPTY output received within ", seconds.as_str(), " seconds");
                    let shown = concat3("Error: ", error.as_str(), ".");
                    let mut notice: Vec<String> = Vec::new();
                    notice.push(String::new());
                    notice.push(shown);
                    notice.push(owned("Aborting ConPTY child..."));
                    proof {
                        reveal_strlit("");
                        assert(strings_view(notice@) =~= Seq::<Seq<char>>::empty().push(
                            Seq::<char>::empty(),
                        ).push("Error: "@ + startup_timeout_error(secs) + "."@).push(
                            "Aborting ConPTY child..."@,
                        ));
                    }
                    (
                        output_bytes,
                        failure_action(
                            true,
                            notice,
                            ConptyFailureStatus::Failed,
                            ConptyFailurePhase::WaitingInitialOutput,
                            ConptyFailureReason::InitialOutputTimeout,
                            error,
                        ),
                    )
                }
            },
            ConptyEvent::UserAbort => (
                output_bytes,
                failure_action(
                    true,
                    no_notice(),
                    ConptyFailureStatus::Aborted,
                    ConptyFailurePhase::UserAbort,
                    ConptyFailureReason::CtrlC,
                    owned("aborted by Ctrl-C"),
                ),
            ),
            ConptyEvent::OutputError { message } => (
                output_bytes,
                failure_action(
                    true,
                    no_notice(),
                    ConptyFailureStatus::Failed,
                    ConptyFailurePhase::OutputBridge,
                    ConptyFailureReason::OutputBridgeFailed,
                    message,
                ),
            ),
            ConptyEvent::InputError { message } => (
                output_bytes,
                failure_action(
                    true,
                    no_notice(),
                    ConptyFailureStatus::Failed,
                    ConptyFailurePhase::InputBridge,
                    ConptyFailureReason::InputBridgeFailed,
                    message,
                ),
            ),
        },
        Some(ConptyLoopMessage::ChildWaitError { message }) => {
            let mut notice: Vec<String> = Vec::new();
            notice.push(owned("Warning: ConPTY child process exit could not be confirmed."));
            proof {
                assert(strings_view(notice@) =~= seq!["Warning: ConPTY child process exit could not be confirmed."@]);
            }
            (
                output_bytes,
                failure_action(
                    true,
                    notice,
                    ConptyFailureStatus::Failed,
                    ConptyFailurePhase::ChildWait,
                    ConptyFailureReason::ChildWaitFailed,
                    message,
                ),
            )
        },
    }
}

/// How the event loop waits for its next message.
#[derive(Debug, Clone, Copy, PartialEq, Eq, Structural)]
pub enum ConptyReceive {
    /// Wait as long as it takes.
    Blocking,
    /// The start-up deadline has passed: act as if the timeout fired.
    StartupTimedOut,
    /// Wait at most this many milliseconds, then act as if the timeout fired.
    WithinMillis(u64),
}

/// How to wait for the next message: once the child has written something, or where no
/// start-up deadline is set, block; otherwise wait until the deadline (instants in
/// milliseconds on a monotonic clock).
pub fn conpty_receive_plan(first_output_received: bool, deadline_ms: Option<u64>, now_ms: u64) -> (r:
    ConptyReceive)
    ensures
        r == if first_output_received {
            ConptyReceive::Blocking
        } else {
            match deadline_ms {
                None => ConptyReceive::Blocking,
                Some(d) => if now_ms >= d {
                    ConptyReceive::StartupTimedOut
                } else {
                    ConptyReceive::WithinMillis((d - now_ms) as u64)
                },
            }
        },
{
    if first_output_received {
        return ConptyReceive::Blocking;
    }
    match deadline_ms {
        None => ConptyReceive::Blocking,
        Some(d) => if now_ms >= d {
            ConptyReceive::StartupTimedOut
        } else {
            ConptyReceive::WithinMillis(d - now_ms)
        },
    }
}

} // verus!
