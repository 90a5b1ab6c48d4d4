use vstd::prelude::*;

verus! {

/// Real-time actions the engine accepts. The engine has no notion of frames or
/// wall-clock time itself; `Tick` carries elapsed time from the caller, in
/// microseconds, so gravity/lock-delay timers stay deterministic and testable
/// without a real clock.
#[derive(Copy, Clone, PartialEq, Eq, Structural, Debug)]
pub enum Action {
    MoveLeft,
    MoveRight,
    RotateCw,
    RotateCcw,
    SoftDropStart,
    SoftDropEnd,
    HardDrop,
    Hold,
    Tick(u64),
}

} // verus!
