use vstd::prelude::*;

use crate::platform::PlatformArch;

verus! {

/// Where the widening search begins: the first window is `[0, 1000]`.
pub const ADAPTIVE_FIRST_END: u32 = 1000;

/// By how much each further round widens the window.
pub const ADAPTIVE_INCREMENT: u32 = 1000;

/// How many rounds may follow the first window.
pub const ADAPTIVE_MAX_ROUNDS: u32 = 15;

/// The widening-window strategy used when no fixed range is given: scan
/// `[0, 1000]` for every target first, then, while any target still lacks
/// a hit and rounds remain, advance the window by 1000 and scan only the
/// targets still missing. It trades exhaustiveness for latency; a build
/// far outside the tried windows is not found.
pub struct AdaptiveSearch {
    pub platforms: Vec<PlatformArch>,
    pub rounds_left: u32,
    pub window_start: u32,
    pub window_end: u32,
}

impl AdaptiveSearch {
    /// A sound strategy state: the window has advanced one increment per
    /// spent round, so its bounds stay far below overflow.
    pub open spec fn wf(self) -> bool {
        &&& self.rounds_left <= ADAPTIVE_MAX_ROUNDS
        &&& self.window_end == ADAPTIVE_FIRST_END + (ADAPTIVE_MAX_ROUNDS - self.rounds_left)
            * ADAPTIVE_INCREMENT
        &&& self.window_start <= self.window_end
    }

    /// Begins the strategy over `platforms`: the first window is
    /// `[0, 1000]` and scans every target.
    pub fn new(platforms: Vec<PlatformArch>) -> (r: AdaptiveSearch)
        ensures
            r.platforms == platforms,
            r.rounds_left == ADAPTIVE_MAX_ROUNDS,
            r.window_start == 0,
            r.window_end == ADAPTIVE_FIRST_END,
            r.wf(),
    {
        AdaptiveSearch {
            platforms,
            rounds_left: ADAPTIVE_MAX_ROUNDS,
            window_start: 0,
            window_end: ADAPTIVE_FIRST_END,
        }
    }

    /// Advances to the next round. With targets still missing and rounds
    /// left, the window moves just past its old end and one increment
    /// further, and the new bounds are returned; otherwise the search is
    /// over and nothing changes.
    pub fn next_round(&mut self, missing_count: usize) -> (r: Option<(u32, u32)>)
        requires
            old(self).wf(),
        ensures
            final(self).wf(),
            final(self).platforms == old(self).platforms,
            match r {
                Some(w) => {
                    &&& old(self).rounds_left > 0
                    &&& missing_count > 0
                    &&& w.0 == old(self).window_end + 1
                    &&& w.1 == old(self).window_end + ADAPTIVE_INCREMENT
                    &&& final(self).window_start == w.0
                    &&& final(self).window_end == w.1
                    &&& final(self).rounds_left == old(self).rounds_left - 1
                },
                None => (old(self).rounds_left == 0 || missing_count == 0) && *final(self) == *old(
                    self,
                ),
            },
    {
        if self.rounds_left == 0 || missing_count == 0 {
            return None;
        }
        let start = self.window_end + 1;
        let end = self.window_end + ADAPTIVE_INCREMENT;
        self.window_start = start;
        self.window_end = end;
        self.rounds_left = self.rounds_left - 1;
        Some((start, end))
    }
}

} // verus!
