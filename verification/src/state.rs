use vstd::prelude::*;

verus! {

/// Phase of the solve protocol. A phase that is measuring time carries the
/// single live instant it was entered at (nanoseconds on a monotonic clock);
/// `Solved` carries the frozen duration of the last completed solve. Elapsed
/// time is always derived as "now minus captured instant", never accumulated.
#[derive(Clone, Copy, Debug, PartialEq, Eq, Structural)]
pub enum TimerState {
    /// Waiting for the user to start inspection.
    Idle,
    /// Counting up from the captured instant; auto-converts to `Solving`
    /// after the fixed inspection window.
    Inspection(u64),
    /// The start key went down during inspection; timing begins on release.
    ReadyToStart,
    /// The stopwatch is running since the captured instant.
    Solving(u64),
    /// The most recent solve took this long; frozen until acknowledged.
    Solved(u64),
}

impl Default for TimerState {
    fn default() -> (r: Self)
        ensures
            r == TimerState::Idle,
    {
        TimerState::Idle
    }
}

} // verus!
