//! What happens to a relay loop once it has ended.
use vstd::prelude::*;

verus! {

/// How a relay loop ended.
#[derive(Clone, Debug)]
pub enum LoopExit {
    /// The broker session was closed on purpose.
    Clean,
    /// The loop failed; the text describes the failure.
    Failed(String),
}

/// What the supervisor does next.
#[derive(Clone, Copy, Debug, PartialEq, Eq, Structural)]
pub enum Supervision {
    Restart,
    Stop,
}

/// The supervisor's decision: a clean exit stops supervision, any failure
/// restarts the loop at once, with no backoff and no limit on restarts.
pub open spec fn supervision_of(exit: LoopExit) -> Supervision {
    match exit {
        LoopExit::Clean => Supervision::Stop,
        LoopExit::Failed(_) => Supervision::Restart,
    }
}

/// Decides whether a relay loop that has ended is started again.
pub fn supervise(exit: &LoopExit) -> (r: Supervision)
    ensures
        r == supervision_of(*exit),
{
    match exit {
        LoopExit::Clean => Supervision::Stop,
        LoopExit::Failed(_) => Supervision::Restart,
    }
}

} // verus!
