//! Starting the download engine: it is ready once it reports that its RPC
//! interface listens; the start fails when its output ends or cannot be read
//! first, or when the wait runs out.

use vstd::prelude::*;
use crate::text::{contains, occurs_at, str_contains};

verus! {

/// What the engine prints once its RPC interface accepts connections.
pub open spec fn ready_marker() -> Seq<char> {
    "IPv4 RPC: listening on TCP"@
}

/// Whether a line of the engine's output says that its RPC interface listens.
pub fn is_rpc_ready_line(line: &str) -> (ready: bool)
    ensures
        ready == contains(line@, ready_marker()),
{
    str_contains(line, "IPv4 RPC: listening on TCP")
}

/// Why the engine did not become ready after it was started.
#[derive(Clone, Copy, Debug, PartialEq, Eq, Structural)]
pub enum EngineError {
    /// The output ended, or could not be read, before the engine was ready.
    NotListening,
    /// The engine did not become ready in time.
    Elapsed,
}

/// What happened while waiting for the engine.
#[derive(Clone, Debug, PartialEq, Eq)]
pub enum StartupEvent {
    /// The engine printed a line.
    Line(String),
    /// The engine's output ended.
    EndOfOutput,
    /// Reading the engine's output failed.
    ReadFailed,
    /// The time allowed for the start ran out.
    Elapsed,
}

/// How the start goes on after an event.
#[derive(Clone, Copy, Debug, PartialEq, Eq, Structural)]
pub enum StartupStep {
    /// Wait for the next event.
    KeepWaiting,
    /// The engine is ready.
    Ready,
    /// The start failed.
    Failed(EngineError),
}

/// The step that follows an event: a line with the ready marker ends the wait
/// successfully, any other line keeps it going, the end of the output or a
/// read failure fail it as `NotListening`, and running out of time fails it as
/// `Elapsed`.
pub open spec fn step_for(event: StartupEvent) -> StartupStep {
    match event {
        StartupEvent::Line(line) => if contains(line@, ready_marker()) {
            StartupStep::Ready
        } else {
            StartupStep::KeepWaiting
        },
        StartupEvent::EndOfOutput => StartupStep::Failed(EngineError::NotListening),
        StartupEvent::ReadFailed => StartupStep::Failed(EngineError::NotListening),
        StartupEvent::Elapsed => StartupStep::Failed(EngineError::Elapsed),
    }
}


/// Law: a printed line never fails the start: it makes the engine ready
/// exactly when "IPv4 RPC: listening on TCP" occurs somewhere in it, and
/// otherwise the wait goes on; the start fails as `NotListening` exactly when
/// the output ends or cannot be read, and as `Elapsed` exactly when the time
/// runs out.
pub proof fn lemma_startup_decisions(event: StartupEvent, before: Seq<char>, after: Seq<char>)
    ensures
        event matches StartupEvent::Line(line) ==> {
            &&& step_for(event) == StartupStep::Ready <==> exists|i: int|
                0 <= i && i + 26 <= line@.len() && #[trigger] line@.subrange(i, i + 26)
                    == "IPv4 RPC: listening on TCP"@
            &&& step_for(event) != StartupStep::Ready ==> step_for(event)
                == StartupStep::KeepWaiting
            &&& line@ == before + "IPv4 RPC: listening on TCP"@ + after ==> step_for(event)
                == StartupStep::Ready
        },
        step_for(event) == StartupStep::Failed(EngineError::NotListening) <==> (
        event is EndOfOutput || event is ReadFailed),
        step_for(event) == StartupStep::Failed(EngineError::Elapsed) <==> event is Elapsed,
        step_for(event) == StartupStep::KeepWaiting || step_for(event) == StartupStep::Ready
            ==> event is Line,
{
    reveal_strlit("IPv4 RPC: listening on TCP");
    let m = "IPv4 RPC: listening on TCP"@;
    assert(m.len() == 26);
    if let StartupEvent::Line(line) = event {
        let s = line@;
        if s == before + m + after {
            let i = before.len() as int;
            assert(s.subrange(i, i + 26) =~= m);
            assert(occurs_at(s, m, i));
        }
        if contains(s, m) {
            let i = choose|i: int| occurs_at(s, m, i);
            assert(s.subrange(i, i + 26) == m);
        }
        if exists|i: int| 0 <= i && i + 26 <= s.len() && #[trigger] s.subrange(i, i + 26) == m {
            let i = choose|i: int| 0 <= i && i + 26 <= s.len() && #[trigger] s.subrange(i, i + 26) == m;
            assert(occurs_at(s, m, i));
        }
    }
}

/// Decides how the start goes on after `event`.
pub fn startup_step(event: &StartupEvent) -> (step: StartupStep)
    ensures
        step == step_for(*event),
{
    match event {
        StartupEvent::Line(line) => if is_rpc_ready_line(line.as_str()) {
            StartupStep::Ready
        } else {
            StartupStep::KeepWaiting
        },
        StartupEvent::EndOfOutput => StartupStep::Failed(EngineError::NotListening),
        StartupEvent::ReadFailed => StartupStep::Failed(EngineError::NotListening),
        StartupEvent::Elapsed => StartupStep::Failed(EngineError::Elapsed),
    }
}

} // verus!
