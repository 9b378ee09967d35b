use vstd::prelude::*;

verus! {

/// The time range a running detection looks at next.
#[derive(Debug, Clone, Copy, PartialEq, Eq, Structural)]
pub struct DetectionWindow {
    pub from: u64,
    pub to: u64,
}

impl DetectionWindow {
    /// The first range a detection run started at `from` looks at: one detection
    /// window back from `from`.
    pub fn first(from: u64, window_size: u64) -> (w: DetectionWindow)
        requires
            window_size <= from,
        ensures
            w.from == from - window_size,
            w.to == from,
            w.from <= w.to,
    {
        DetectionWindow { from: from - window_size, to: from }
    }

    /// The next range: both ends move forward by one detection step.
    pub fn next(&self, step: u64) -> (w: DetectionWindow)
        requires
            self.from <= self.to,
            self.to + step <= u64::MAX,
        ensures
            w.from == self.from + step,
            w.to == self.to + step,
            w.to - w.from == self.to - self.from,
            w.from <= w.to,
    {
        DetectionWindow { from: self.from + step, to: self.to + step }
    }
}

} // verus!
