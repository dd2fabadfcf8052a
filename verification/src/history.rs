//! The CPU history: an append-only sequence of per-tick samples that
//! drives the chart. Samples are never removed or reordered; growth is
//! unbounded by design, acceptable for short interactive sessions.
use vstd::prelude::*;

verus! {

/// One retained sample: the tick it was taken on and the global CPU
/// utilization at that tick, in hundredths of a percent (so at most
/// `10000`, i.e. 100%).
#[derive(Clone, Copy, PartialEq, Eq, Structural)]
pub struct Sample {
    pub tick: u64,
    pub cpu: u32,
}

/// The upper bound of the chart's y axis: 100%, in hundredths.
pub const CPU_SCALE: u32 = 10000;

/// The retained history of CPU samples, in tick order.
pub struct History {
    pub samples: Vec<Sample>,
}

impl History {
    /// Ticks strictly increase along the history and every sample is a
    /// valid percentage; so the chart fits in `y ∈ [0, 100%]`.
    pub open spec fn wf(self) -> bool {
        &&& forall|i: int, j: int|
            0 <= i < j < self.samples@.len() ==> self.samples@[i].tick < self.samples@[j].tick
        &&& forall|i: int| 0 <= i < self.samples@.len() ==> self.samples@[i].cpu <= CPU_SCALE
    }

    /// An empty history.
    pub fn new() -> (h: History)
        ensures
            h.wf(),
            h.samples@.len() == 0,
    {
        History { samples: Vec::new() }
    }

    /// Appends the sample for one completed tick. Never evicts: the
    /// series grows by exactly one per call, and tick order is kept.
    pub fn append(&mut self, tick: u64, cpu: u32)
        requires
            old(self).wf(),
            cpu <= CPU_SCALE,
            old(self).samples@.len() > 0 ==> old(self).samples@.last().tick < tick,
        ensures
            final(self).wf(),
            final(self).samples@ == old(self).samples@.push((Sample { tick, cpu })),
            final(self).samples@.len() == old(self).samples@.len() + 1,
    {
        self.samples.push(Sample { tick, cpu });
    }

    /// The full retained series, oldest first, for charting.
    pub fn as_series(&self) -> (s: &Vec<Sample>)
        ensures
            s@ == self.samples@,
    {
        &self.samples
    }

    /// Number of retained samples; the chart's x axis is `[0, len]`.
    pub fn len(&self) -> (n: usize)
        ensures
            n == self.samples@.len(),
    {
        self.samples.len()
    }
}

} // verus!
