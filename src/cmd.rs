//! What a report run is asked to do.
use vstd::prelude::*;
use crate::format::HeaderFormat;

verus! {

/// The tasks to report on and how.
pub struct Config<H: HeaderFormat> {
    pub tids: Vec<u32>,
    pub verbose: bool,
    pub show_delays: bool,
    pub header_format: H,
}

/// The reports a run prints, in this order.
#[derive(Debug, Clone, Copy, PartialEq, Eq)]
pub struct Reports {
    pub full: bool,
    pub delays: bool,
    pub summary: bool,
}

impl<H: HeaderFormat> Config<H> {
    /// The full report when verbose, the delay table when delays are asked
    /// for, and the summary table when neither is.
    pub fn reports(&self) -> (r: Reports)
        ensures
            r.full == self.verbose,
            r.delays == self.show_delays,
            r.summary == (!self.verbose && !self.show_delays),
    {
        Reports {
            full: self.verbose,
            delays: self.show_delays,
            summary: !self.verbose && !self.show_delays,
        }
    }
}

} // verus!
