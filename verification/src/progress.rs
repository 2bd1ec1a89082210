use vstd::prelude::*;

use crate::platform::PlatformArch;

verus! {

/// One message out of a running search, as the interactive caller
/// receives them.
pub enum SearchEvent {
    /// One more probe completed.
    Progress,
    /// A candidate exists: its URL and target.
    Result { url: String, platform: PlatformArch },
    /// A version's scan begins: the version, its 1-based index, and the
    /// run's version count.
    VersionStart { version: String, index: usize, total: usize },
    /// A version's scan finished.
    ScanComplete { version: String },
    /// The whole run finished.
    RunComplete,
}

/// What applying one event asks of the caller's surface.
pub struct EventEffect {
    /// The hit was its target's first: a heading should precede it.
    pub new_platform: bool,
    /// The run is over.
    pub run_finished: bool,
    /// At the run's end: whether anything at all was found.
    pub found_any: bool,
}

/// Whether some hit of `s` belongs to target `p`.
pub open spec fn has_platform(s: Seq<(String, PlatformArch)>, p: PlatformArch) -> bool {
    exists|i: int| 0 <= i < s.len() && (#[trigger] s[i]).1 == p
}

/// Saturating increment of a 64-bit counter.
pub open spec fn sat_inc(n: u64) -> u64 {
    if n == u64::MAX {
        n
    } else {
        (n + 1) as u64
    }
}

/// The consumer side of the progress feed: counts completed probes
/// against the planned total, follows which version is being scanned,
/// and collects the hits per target, in arrival order.
pub struct ProgressTracker {
    pub processed: u64,
    pub total_work: u64,
    pub current_version: Option<String>,
    pub version_index: usize,
    pub total_versions: usize,
    pub searching: bool,
    pub found: Vec<(String, PlatformArch)>,
}

impl ProgressTracker {
    /// Begins following a run planned at `total_work` probes over
    /// `total_versions` versions.
    pub fn new(total_work: u64, total_versions: usize) -> (r: ProgressTracker)
        ensures
            r.processed == 0,
            r.total_work == total_work,
            r.current_version is None,
            r.version_index == 0,
            r.total_versions == total_versions,
            r.searching,
            r.found@ =~= Seq::<(String, PlatformArch)>::empty(),
    {
        ProgressTracker {
            processed: 0,
            total_work,
            current_version: None,
            version_index: 0,
            total_versions,
            searching: true,
            found: Vec::new(),
        }
    }

    /// Whether any hit arrived so far.
    pub fn found_any(&self) -> (r: bool)
        ensures
            r == (self.found@.len() > 0),
    {
        self.found.len() > 0
    }

    /// Whether a hit for `p` arrived so far.
    pub fn has_hit_for(&self, p: PlatformArch) -> (r: bool)
        ensures
            r == has_platform(self.found@, p),
    {
        let mut i: usize = 0;
        while i < self.found.len()
            invariant
                0 <= i <= self.found@.len(),
                forall|j: int| 0 <= j < i ==> (#[trigger] self.found@[j]).1 != p,
            decreases self.found@.len() - i,
        {
            if self.found[i].1 == p {
                return true;
            }
            i += 1;
        }
        false
    }

    /// Takes one event: a completion bumps the processed count
    /// (saturating); a hit is appended, flagged when it is its target's
    /// first; a version start moves the version cursor; the run's end
    /// clears the searching flag and says whether anything was found.
    pub fn apply(&mut self, event: SearchEvent) -> (r: EventEffect)
        ensures
            final(self).total_work == old(self).total_work,
            match event {
                SearchEvent::Progress => {
                    &&& final(self).processed == sat_inc(old(self).processed)
                    &&& final(self).found@ == old(self).found@
                    &&& final(self).searching == old(self).searching
                    &&& final(self).current_version == old(self).current_version
                    &&& final(self).version_index == old(self).version_index
                    &&& final(self).total_versions == old(self).total_versions
                    &&& !r.new_platform && !r.run_finished
                },
                SearchEvent::Result { url, platform } => {
                    &&& final(self).found@ == old(self).found@.push((url, platform))
                    &&& r.new_platform == !has_platform(old(self).found@, platform)
                    &&& final(self).processed == old(self).processed
                    &&& final(self).searching == old(self).searching
                    &&& final(self).current_version == old(self).current_version
                    &&& final(self).version_index == old(self).version_index
                    &&& final(self).total_versions == old(self).total_versions
                    &&& !r.run_finished
                },
                SearchEvent::VersionStart { version, index, total } => {
                    &&& final(self).current_version == Some(version)
                    &&& final(self).version_index == index
                    &&& final(self).total_versions == total
                    &&& final(self).processed == old(self).processed
                    &&& final(self).found@ == old(self).found@
                    &&& final(self).searching == old(self).searching
                    &&& !r.new_platform && !r.run_finished
                },
                SearchEvent::ScanComplete { .. } => {
                    &&& *final(self) == *old(self)
                    &&& !r.new_platform && !r.run_finished
                },
                SearchEvent::RunComplete => {
                    &&& !final(self).searching
                    &&& final(self).processed == old(self).processed
                    &&& final(self).found@ == old(self).found@
                    &&& final(self).current_version == old(self).current_version
                    &&& final(self).version_index == old(self).version_index
                    &&& final(self).total_versions == old(self).total_versions
                    &&& r.run_finished
                    &&& r.found_any == (old(self).found@.len() > 0)
                },
            },
    {
        match event {
            SearchEvent::Progress => {
                if self.processed < u64::MAX {
                    self.processed = self.processed + 1;
                }
                EventEffect { new_platform: false, run_finished: false, found_any: false }
            },
            SearchEvent::Result { url, platform } => {
                let first = !self.has_hit_for(platform);
                self.found.push((url, platform));
                EventEffect { new_platform: first, run_finished: false, found_any: false }
            },
            SearchEvent::VersionStart { version, index, total } => {
                self.current_version = Some(version);
                self.version_index = index;
                self.total_versions = total;
                EventEffect { new_platform: false, run_finished: false, found_any: false }
            },
            SearchEvent::ScanComplete { .. } => {
                EventEffect { new_platform: false, run_finished: false, found_any: false }
            },
            SearchEvent::RunComplete => {
                self.searching = false;
                let any = self.found.len() > 0;
                EventEffect { new_platform: false, run_finished: true, found_any: any }
            },
        }
    }
}

} // verus!
