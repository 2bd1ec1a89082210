use vstd::prelude::*;

use crate::platform::PlatformArch;
use crate::text::{parse_u32, parse_u32_spec, split_char, split_on, str_views};
use crate::version::{should_use_win_x86, win_x86_offered};

verus! {

// ---------------------------------------------------------------------------
// Request validation errors
// ---------------------------------------------------------------------------

/// Why a search request was rejected before any probing began.
#[derive(Debug, Clone, Copy, PartialEq, Eq, Structural)]
pub enum RequestError {
    /// No line of the input was a well-formed version string.
    NoValidVersions,
    /// The end of the build-number range lies before its start.
    InvertedRange,
    /// No target platform was selected.
    NoPlatforms,
    /// Only legacy 32-bit Windows was selected, and the one requested
    /// version lies past its cutoff.
    WinX86Unsupported,
}

/// The reason of a rejection, as shown to an operator.
pub open spec fn error_message_chars(e: RequestError) -> Seq<char> {
    match e {
        RequestError::NoValidVersions => "Error: No valid versions provided"@,
        RequestError::InvertedRange => "Error: End range must be >= start range"@,
        RequestError::NoPlatforms => "Error: No platforms selected"@,
        RequestError::WinX86Unsupported => "Warning: x86 architecture for Windows is no longer supported for versions newer than 1.2.53"@,
    }
}

impl RequestError {
    /// The human-readable reason of this rejection.
    pub fn message(&self) -> (r: &'static str)
        ensures
            r@ == error_message_chars(*self),
    {
        match self {
            RequestError::NoValidVersions => "Error: No valid versions provided",
            RequestError::InvertedRange => "Error: End range must be >= start range",
            RequestError::NoPlatforms => "Error: No platforms selected",
            RequestError::WinX86Unsupported => "Warning: x86 architecture for Windows is no longer supported for versions newer than 1.2.53",
        }
    }
}

// ---------------------------------------------------------------------------
// Small input helpers
// ---------------------------------------------------------------------------

/// The admission bound, clamped to its working interval.
pub open spec fn clamp_connections_spec(n: int) -> int {
    if n < 50 {
        50
    } else if n > 300 {
        300
    } else {
        n
    }
}

/// Clamps a requested connection count to the interval the prober tolerates.
pub fn clamp_connections(n: usize) -> (r: usize)
    ensures
        r == clamp_connections_spec(n as int),
{
    if n < 50 {
        50
    } else if n > 300 {
        300
    } else {
        n
    }
}

/// What `parse_range` returns for a range argument: the two numbers around
/// one `-`, each falling back to its default when it does not parse, and
/// `(0, 5000)` when the shape is not `start-end`.
pub open spec fn parse_range_spec(s: Seq<char>) -> (u32, u32) {
    let parts = split_char(s, '-');
    if parts.len() == 2 {
        (
            match parse_u32_spec(parts[0]) {
                Some(v) => v,
                None => 0,
            },
            match parse_u32_spec(parts[1]) {
                Some(v) => v,
                None => 5000,
            },
        )
    } else {
        (0, 5000)
    }
}

/// Reads a `start-end` build-number range argument.
pub fn parse_range(range_str: &str) -> (r: (u32, u32))
    ensures
        r == parse_range_spec(range_str@),
{
    let parts = split_on(range_str, '-');
    if parts.len() == 2 {
        proof {
            assert(str_views(parts@)[0] == parts@[0]@);
            assert(str_views(parts@)[1] == parts@[1]@);
        }
        let start = match parse_u32(parts[0].as_str()) {
            Some(v) => v,
            None => 0,
        };
        let end = match parse_u32(parts[1].as_str()) {
            Some(v) => v,
            None => 5000,
        };
        (start, end)
    } else {
        (0, 5000)
    }
}

/// Reads one bound of a build-number range, falling back to a default.
pub fn parse_range_field(s: &str, default: u32) -> (r: u32)
    ensures
        r == match parse_u32_spec(s@) {
            Some(v) => v,
            None => default,
        },
{
    match parse_u32(s) {
        Some(v) => v,
        None => default,
    }
}

/// The targets chosen by five selection switches, in canonical order.
pub open spec fn selection_spec(
    win_x86: bool,
    win_x64: bool,
    win_arm64: bool,
    macos_intel: bool,
    macos_arm64: bool,
) -> Seq<PlatformArch> {
    (if win_x86 {
        seq![PlatformArch::WinX86]
    } else {
        Seq::empty()
    }) + (if win_x64 {
        seq![PlatformArch::WinX64]
    } else {
        Seq::empty()
    }) + (if win_arm64 {
        seq![PlatformArch::WinArm64]
    } else {
        Seq::empty()
    }) + (if macos_intel {
        seq![PlatformArch::MacOsIntel]
    } else {
        Seq::empty()
    }) + (if macos_arm64 {
        seq![PlatformArch::MacOsArm64]
    } else {
        Seq::empty()
    })
}

/// Collects the targets chosen by five selection switches.
pub fn selected_platforms(
    win_x86: bool,
    win_x64: bool,
    win_arm64: bool,
    macos_intel: bool,
    macos_arm64: bool,
) -> (r: Vec<PlatformArch>)
    ensures
        r@ == selection_spec(win_x86, win_x64, win_arm64, macos_intel, macos_arm64),
        r@.no_duplicates(),
{
    let mut v: Vec<PlatformArch> = Vec::new();
    if win_x86 {
        v.push(PlatformArch::WinX86);
    }
    if win_x64 {
        v.push(PlatformArch::WinX64);
    }
    if win_arm64 {
        v.push(PlatformArch::WinArm64);
    }
    if macos_intel {
        v.push(PlatformArch::MacOsIntel);
    }
    if macos_arm64 {
        v.push(PlatformArch::MacOsArm64);
    }
    proof {
        assert(v@ =~= selection_spec(win_x86, win_x64, win_arm64, macos_intel, macos_arm64));
    }
    v
}

// ---------------------------------------------------------------------------
// Deduplication
// ---------------------------------------------------------------------------

/// `s` with every repeated target dropped, first occurrences kept in order.
pub open spec fn dedup_spec(s: Seq<PlatformArch>) -> Seq<PlatformArch>
    decreases s.len(),
{
    if s.len() == 0 {
        Seq::empty()
    } else {
        let r = dedup_spec(s.drop_last());
        if r.contains(s.last()) {
            r
        } else {
            r.push(s.last())
        }
    }
}

pub proof fn lemma_dedup(s: Seq<PlatformArch>)
    ensures
        dedup_spec(s).no_duplicates(),
        forall|p: PlatformArch| dedup_spec(s).contains(p) <==> s.contains(p),
        dedup_spec(s).len() <= s.len(),
        s.len() > 0 ==> dedup_spec(s).len() >= 1,
    decreases s.len(),
{
    if s.len() > 0 {
        lemma_dedup(s.drop_last());
        let r = dedup_spec(s.drop_last());
        assert forall|p: PlatformArch| dedup_spec(s).contains(p) implies s.contains(p) by {
            if r.contains(p) {
                assert(s.drop_last().contains(p));
                let i = choose|i: int| 0 <= i < s.drop_last().len() && s.drop_last()[i] == p;
                assert(s[i] == p);
            } else {
                assert(s[s.len() - 1] == s.last());
            }
        }
        assert forall|p: PlatformArch| s.contains(p) implies dedup_spec(s).contains(p) by {
            let i = choose|i: int| 0 <= i < s.len() && s[i] == p;
            if i < s.len() - 1 {
                assert(s.drop_last()[i] == p);
                assert(s.drop_last().contains(p));
                assert(r.contains(p));
                let j = choose|j: int| 0 <= j < r.len() && r[j] == p;
                if !r.contains(s.last()) {
                    assert(r.push(s.last())[j] == p);
                }
            } else {
                assert(p == s.last());
                if !r.contains(s.last()) {
                    assert(r.push(s.last())[r.len() as int] == s.last());
                }
            }
        }
    }
}

/// No more than five distinct targets exist.
pub proof fn lemma_distinct_platforms_bounded(s: Seq<PlatformArch>)
    requires
        s.no_duplicates(),
    ensures
        s.len() <= 5,
{
    let full = set![
        PlatformArch::WinX86,
        PlatformArch::WinX64,
        PlatformArch::WinArm64,
        PlatformArch::MacOsIntel,
        PlatformArch::MacOsArm64,
    ];
    s.unique_seq_to_set();
    assert(s.to_set().subset_of(full));
    assert(full.len() <= 5) by {
        assert(full =~= Set::empty().insert(PlatformArch::WinX86).insert(
            PlatformArch::WinX64,
        ).insert(PlatformArch::WinArm64).insert(PlatformArch::MacOsIntel).insert(
            PlatformArch::MacOsArm64,
        ));
    }
    vstd::set_lib::lemma_len_subset(s.to_set(), full);
}

/// Whether `v` holds `p`.
pub fn contains_platform(v: &Vec<PlatformArch>, p: PlatformArch) -> (r: bool)
    ensures
        r == v@.contains(p),
{
    let mut i: usize = 0;
    while i < v.len()
        invariant
            0 <= i <= v@.len(),
            forall|j: int| 0 <= j < i ==> v@[j] != p,
        decreases v@.len() - i,
    {
        if v[i] == p {
            return true;
        }
        i += 1;
    }
    false
}

/// Drops repeated targets, keeping first occurrences in order.
pub fn dedup_platforms(platforms: &Vec<PlatformArch>) -> (r: Vec<PlatformArch>)
    ensures
        r@ == dedup_spec(platforms@),
{
    let mut out: Vec<PlatformArch> = Vec::new();
    let mut i: usize = 0;
    proof {
        assert(platforms@.take(0) =~= Seq::<PlatformArch>::empty());
    }
    while i < platforms.len()
        invariant
            0 <= i <= platforms@.len(),
            out@ == dedup_spec(platforms@.take(i as int)),
        decreases platforms@.len() - i,
    {
        proof {
            assert(platforms@.take(i + 1).drop_last() =~= platforms@.take(i as int));
            assert(platforms@.take(i + 1).last() == platforms@[i as int]);
        }
        if !contains_platform(&out, platforms[i]) {
            out.push(platforms[i]);
        }
        i += 1;
    }
    proof {
        assert(platforms@.take(platforms@.len() as int) =~= platforms@);
    }
    out
}

// ---------------------------------------------------------------------------
// Pruning targets no longer offered for a version
// ---------------------------------------------------------------------------

/// The targets of `base` that a scan of version `v` probes: legacy 32-bit
/// Windows is dropped past its cutoff, but only when it is not the only
/// selected target.
pub open spec fn pruned_spec(base: Seq<PlatformArch>, v: Seq<char>) -> Seq<PlatformArch> {
    if base.contains(PlatformArch::WinX86) && base.len() > 1 && !win_x86_offered(v) {
        base.filter(|p: PlatformArch| p != PlatformArch::WinX86)
    } else {
        base
    }
}

/// Filtering keeps membership within the source and keeps distinctness.
proof fn lemma_filter_keeps(s: Seq<PlatformArch>, pred: spec_fn(PlatformArch) -> bool)
    ensures
        forall|p: PlatformArch| s.filter(pred).contains(p) ==> s.contains(p) && pred(p),
        s.no_duplicates() ==> s.filter(pred).no_duplicates(),
    decreases s.len(),
{
    reveal(Seq::filter);
    if s.len() > 0 {
        let t = s.drop_last();
        lemma_filter_keeps(t, pred);
        assert forall|p: PlatformArch| s.filter(pred).contains(p) implies s.contains(p) && pred(
            p,
        ) by {
            if t.filter(pred).contains(p) {
                assert(t.contains(p));
                let i = choose|i: int| 0 <= i < t.len() && t[i] == p;
                assert(s[i] == p);
            } else {
                assert(p == s.last());
                assert(s[s.len() - 1] == s.last());
            }
        }
        if s.no_duplicates() {
            assert(t.no_duplicates());
            if pred(s.last()) {
                assert(!t.contains(s.last()));
                assert(!t.filter(pred).contains(s.last()));
                assert(s.filter(pred) == t.filter(pred).push(s.last()));
            }
        }
    }
}

pub proof fn lemma_pruned(base: Seq<PlatformArch>, v: Seq<char>)
    requires
        base.no_duplicates(),
        base.len() >= 1,
    ensures
        pruned_spec(base, v).no_duplicates(),
        1 <= pruned_spec(base, v).len() <= base.len(),
        forall|p: PlatformArch| pruned_spec(base, v).contains(p) ==> base.contains(p),
{
    let pred = |p: PlatformArch| p != PlatformArch::WinX86;
    lemma_filter_keeps(base, pred);
    if base.contains(PlatformArch::WinX86) && base.len() > 1 && !win_x86_offered(v) {
        base.lemma_filter_len(pred);
        let witness: int = if base[0] != PlatformArch::WinX86 {
            0
        } else {
            1
        };
        assert(base[witness] != PlatformArch::WinX86);
        base.lemma_filter_contains(pred, witness);
        assert(base.filter(pred).len() >= 1);
    } else {
        assert(base.contains(base[0]));
    }
}

/// Drops legacy 32-bit Windows from a scan of `version` past the cutoff,
/// unless it is the only selected target.
pub fn platforms_for_version(base: &Vec<PlatformArch>, version: &str) -> (r: Vec<PlatformArch>)
    ensures
        r@ == pruned_spec(base@, version@),
{
    let has_x86 = contains_platform(base, PlatformArch::WinX86);
    if has_x86 && base.len() > 1 && !should_use_win_x86(version) {
        let mut out: Vec<PlatformArch> = Vec::new();
        let mut i: usize = 0;
        proof {
            reveal(Seq::filter);
            assert(base@.take(0) =~= Seq::<PlatformArch>::empty());
            assert(out@ =~= base@.take(0).filter(|p: PlatformArch| p != PlatformArch::WinX86));
        }
        while i < base.len()
            invariant
                0 <= i <= base@.len(),
                out@ == base@.take(i as int).filter(|p: PlatformArch| p != PlatformArch::WinX86),
            decreases base@.len() - i,
        {
            proof {
                reveal(Seq::filter);
                assert(base@.take(i + 1).drop_last() =~= base@.take(i as int));
                assert(base@.take(i + 1).last() == base@[i as int]);
            }
            let keep = !matches!(base[i], PlatformArch::WinX86);
            if keep {
                out.push(base[i]);
            }
            i += 1;
        }
        proof {
            assert(base@.take(base@.len() as int) =~= base@);
        }
        out
    } else {
        let mut out: Vec<PlatformArch> = Vec::new();
        let mut i: usize = 0;
        while i < base.len()
            invariant
                0 <= i <= base@.len(),
                out@ == base@.take(i as int),
            decreases base@.len() - i,
        {
            proof {
                assert(base@.take(i + 1).drop_last() =~= base@.take(i as int));
            }
            out.push(base[i]);
            i += 1;
        }
        proof {
            assert(base@.take(base@.len() as int) =~= base@);
        }
        out
    }
}

// ---------------------------------------------------------------------------
// The request itself
// ---------------------------------------------------------------------------

/// One validated scan: a version string, the targets to probe in order, an
/// inclusive build-number range and the admission bound.
pub struct SearchRequest {
    pub version: String,
    pub platforms: Vec<PlatformArch>,
    pub start: u32,
    pub end: u32,
    pub concurrency_cap: usize,
}

impl SearchRequest {
    /// A well-formed request: at least one target, none repeated, a
    /// non-inverted range, and a positive admission bound.
    pub open spec fn wf(self) -> bool {
        &&& self.platforms@.len() >= 1
        &&& self.platforms@.no_duplicates()
        &&& self.start <= self.end
        &&& 1 <= self.concurrency_cap
    }

    /// How many build numbers the range holds.
    pub open spec fn range_len(self) -> nat {
        (self.end - self.start + 1) as nat
    }

    /// How many probes the full scan issues: one per target and number.
    pub open spec fn total_units(self) -> nat {
        self.platforms@.len() * self.range_len()
    }

    /// The probe count of a well-formed request fits a 64-bit counter.
    pub proof fn lemma_total_units_bounded(self)
        requires
            self.wf(),
        ensures
            self.total_units() <= 5 * 0x1_0000_0000,
    {
        lemma_distinct_platforms_bounded(self.platforms@);
        assert(self.range_len() <= 0x1_0000_0000);
        assert(self.platforms@.len() * self.range_len() <= 5 * 0x1_0000_0000)
            by (nonlinear_arith)
            requires
                self.platforms@.len() <= 5,
                self.range_len() <= 0x1_0000_0000,
        ;
    }

    /// Validates and builds one scan request. Repeated targets are dropped;
    /// the connection count is clamped. Rejects an inverted range, then an
    /// empty target selection, and nothing else.
    pub fn new(
        version: String,
        platforms: Vec<PlatformArch>,
        start: u32,
        end: u32,
        connections: usize,
    ) -> (r: Result<SearchRequest, RequestError>)
        ensures
            match r {
                Ok(req) => {
                    &&& start <= end
                    &&& platforms@.len() > 0
                    &&& req.version == version
                    &&& req.platforms@ == dedup_spec(platforms@)
                    &&& req.start == start
                    &&& req.end == end
                    &&& req.concurrency_cap == clamp_connections_spec(connections as int)
                    &&& req.wf()
                },
                Err(e) => {
                    &&& (end < start || platforms@.len() == 0)
                    &&& e == if end < start {
                        RequestError::InvertedRange
                    } else {
                        RequestError::NoPlatforms
                    }
                },
            },
    {
        if end < start {
            return Err(RequestError::InvertedRange);
        }
        if platforms.len() == 0 {
            return Err(RequestError::NoPlatforms);
        }
        let deduped = dedup_platforms(&platforms);
        proof {
            lemma_dedup(platforms@);
            assert(platforms@.contains(platforms@[0]));
        }
        Ok(
            SearchRequest {
                version,
                platforms: deduped,
                start,
                end,
                concurrency_cap: clamp_connections(connections),
            },
        )
    }
}

// ---------------------------------------------------------------------------
// A whole run: several versions over one target selection
// ---------------------------------------------------------------------------

/// Saturating 64-bit addition.
pub open spec fn sat_add_u64(a: nat, b: nat) -> nat {
    if a + b > u64::MAX {
        u64::MAX as nat
    } else {
        a + b
    }
}

/// The probes a whole run plans: for every version, the range length times
/// the count of targets still offered for it, summed with saturation.
pub open spec fn total_work_spec(
    versions: Seq<String>,
    platforms: Seq<PlatformArch>,
    start: u32,
    end: u32,
) -> nat
    decreases versions.len(),
{
    if versions.len() == 0 {
        0
    } else {
        sat_add_u64(
            total_work_spec(versions.drop_last(), platforms, start, end),
            pruned_spec(platforms, versions.last()@).len() * ((end - start + 1) as nat),
        )
    }
}

/// A validated run: the versions to scan in order, the target selection,
/// the range, the admission bound, and the planned probe total.
pub struct RunPlan {
    pub versions: Vec<String>,
    pub platforms: Vec<PlatformArch>,
    pub start: u32,
    pub end: u32,
    pub concurrency_cap: usize,
    pub total_work: u64,
}

impl RunPlan {
    /// A well-formed plan: versions present, targets present and distinct,
    /// range not inverted, positive admission bound, and the planned total
    /// as computed from the parts.
    pub open spec fn wf(self) -> bool {
        &&& self.versions@.len() >= 1
        &&& self.platforms@.len() >= 1
        &&& self.platforms@.no_duplicates()
        &&& self.start <= self.end
        &&& 1 <= self.concurrency_cap
        &&& self.total_work == total_work_spec(self.versions@, self.platforms@, self.start, self.end)
    }

    /// How many versions the run scans.
    pub fn version_count(&self) -> (r: usize)
        ensures
            r == self.versions@.len(),
    {
        self.versions.len()
    }

    /// The scan request of the `i`-th version: the run's range and bound,
    /// with the targets still offered for that version.
    pub fn scan_request(&self, i: usize) -> (r: SearchRequest)
        requires
            self.wf(),
            i < self.versions@.len(),
        ensures
            r.version == self.versions@[i as int],
            r.platforms@ == pruned_spec(self.platforms@, self.versions@[i as int]@),
            r.start == self.start,
            r.end == self.end,
            r.concurrency_cap == self.concurrency_cap,
            r.wf(),
    {
        let pruned = platforms_for_version(&self.platforms, self.versions[i].as_str());
        proof {
            lemma_pruned(self.platforms@, self.versions@[i as int]@);
        }
        SearchRequest {
            version: self.versions[i].clone(),
            platforms: pruned,
            start: self.start,
            end: self.end,
            concurrency_cap: self.concurrency_cap,
        }
    }
}

/// Validates a whole run. `versions` are the well-formed version strings
/// already filtered from the operator's input; rejection order and reasons
/// follow the order the inputs are read: versions, range, targets, cutoff.
pub fn build_run_plan(
    versions: Vec<String>,
    platforms: Vec<PlatformArch>,
    start: u32,
    end: u32,
    connections: usize,
) -> (r: Result<RunPlan, RequestError>)
    requires
        platforms@.no_duplicates(),
    ensures
        match r {
            Ok(plan) => {
                &&& versions@.len() > 0
                &&& start <= end
                &&& platforms@.len() > 0
                &&& !(platforms@ =~= seq![PlatformArch::WinX86] && versions@.len() == 1
                    && !win_x86_offered(versions@[0]@))
                &&& plan.versions@ == versions@
                &&& plan.platforms@ == platforms@
                &&& plan.start == start
                &&& plan.end == end
                &&& plan.concurrency_cap == clamp_connections_spec(connections as int)
                &&& plan.wf()
            },
            Err(e) => (e == if versions@.len() == 0 {
                RequestError::NoValidVersions
            } else if end < start {
                RequestError::InvertedRange
            } else if platforms@.len() == 0 {
                RequestError::NoPlatforms
            } else {
                RequestError::WinX86Unsupported
            }) && (versions@.len() == 0 || end < start || platforms@.len() == 0 || (platforms@
                =~= seq![PlatformArch::WinX86] && versions@.len() == 1 && !win_x86_offered(
                versions@[0]@,
            ))),
        },
{
    if versions.len() == 0 {
        return Err(RequestError::NoValidVersions);
    }
    if end < start {
        return Err(RequestError::InvertedRange);
    }
    if platforms.len() == 0 {
        return Err(RequestError::NoPlatforms);
    }
    if platforms.len() == 1 && versions.len() == 1 {
        let only_x86 = matches!(platforms[0], PlatformArch::WinX86);
        if only_x86 {
            proof {
                assert(platforms@ =~= seq![PlatformArch::WinX86]);
            }
            if !crate::version::should_use_win_x86(versions[0].as_str()) {
                return Err(RequestError::WinX86Unsupported);
            }
        } else {
            proof {
                assert(!(platforms@ =~= seq![PlatformArch::WinX86]));
            }
        }
    }
    let total_work = compute_total_work(&versions, &platforms, start, end);
    Ok(
        RunPlan {
            versions,
            platforms,
            start,
            end,
            concurrency_cap: clamp_connections(connections),
            total_work,
        },
    )
}

/// Sums the planned probes over all versions, saturating at the counter's
/// top as the interactive caller did.
fn compute_total_work(
    versions: &Vec<String>,
    platforms: &Vec<PlatformArch>,
    start: u32,
    end: u32,
) -> (r: u64)
    requires
        start <= end,
        platforms@.no_duplicates(),
        platforms@.len() >= 1,
    ensures
        r == total_work_spec(versions@, platforms@, start, end),
{
    let range_len: u64 = (end - start) as u64 + 1;
    let mut total: u64 = 0;
    let mut i: usize = 0;
    proof {
        assert(versions@.take(0) =~= Seq::<String>::empty());
    }
    while i < versions.len()
        invariant
            start <= end,
            platforms@.no_duplicates(),
            platforms@.len() >= 1,
            range_len == (end - start + 1) as nat,
            0 <= i <= versions@.len(),
            total == total_work_spec(versions@.take(i as int), platforms@, start, end),
        decreases versions@.len() - i,
    {
        let pruned = platforms_for_version(platforms, versions[i].as_str());
        proof {
            lemma_pruned(platforms@, versions@[i as int]@);
            lemma_distinct_platforms_bounded(platforms@);
            assert(pruned@.len() <= 5);
            assert(pruned@.len() * ((end - start + 1) as nat) <= 5 * 0x1_0000_0000)
                by (nonlinear_arith)
                requires
                    pruned@.len() <= 5,
                    ((end - start + 1) as nat) <= 0x1_0000_0000,
            ;
        }
        let per_version: u64 = (pruned.len() as u64) * range_len;
        let new_total = if total > u64::MAX - per_version {
            u64::MAX
        } else {
            total + per_version
        };
        proof {
            assert(versions@.take(i + 1).drop_last() =~= versions@.take(i as int));
            assert(versions@.take(i + 1).last() == versions@[i as int]);
        }
        total = new_total;
        i += 1;
    }
    proof {
        assert(versions@.take(versions@.len() as int) =~= versions@);
    }
    total
}

} // verus!
