use vstd::prelude::*;

use crate::platform::PlatformArch;
use crate::request::SearchRequest;
use crate::url::{url_chars, UrlGenerator};
use vstd::arithmetic::div_mod::{
    lemma_div_pos_is_pos, lemma_fundamental_div_mod, lemma_fundamental_div_mod_converse,
    lemma_mod_bound, lemma_multiply_divide_lt,
};
use vstd::arithmetic::mul::lemma_mul_is_commutative;

verus! {

// ---------------------------------------------------------------------------
// Probe outcomes
// ---------------------------------------------------------------------------

/// What one existence check found. A rate-limit answer is kept apart for
/// observability, but the rest of the system treats it as a miss.
pub enum ProbeOutcome {
    /// The candidate exists: the probed URL and its target.
    Found { url: String, platform: PlatformArch },
    /// The candidate does not exist, or the check failed transiently.
    NotFound,
    /// The origin answered that too many requests were sent.
    RateLimited,
}

impl ProbeOutcome {
    /// Whether this outcome carries a hit.
    pub open spec fn is_found(self) -> bool {
        self is Found
    }
}

/// Classifies an HTTP status: any success is a hit, a too-many-requests
/// answer is surfaced as such, and everything else is a miss. A transport
/// failure never reaches this point; the caller reports it as a miss.
pub fn classify_status(code: u16, url: String, platform: PlatformArch) -> (r: ProbeOutcome)
    ensures
        200 <= code < 300 ==> r == (ProbeOutcome::Found { url, platform }),
        !(200 <= code < 300) && code == 429 ==> r == ProbeOutcome::RateLimited,
        !(200 <= code < 300) && code != 429 ==> r == ProbeOutcome::NotFound,
{
    if 200 <= code && code < 300 {
        ProbeOutcome::Found { url, platform }
    } else if code == 429 {
        ProbeOutcome::RateLimited
    } else {
        ProbeOutcome::NotFound
    }
}

/// One admitted probe: the URL to check, its target, and the build number
/// the URL was generated from.
pub struct ProbeTask {
    pub url: String,
    pub platform: PlatformArch,
    pub number: u32,
}

/// The externally visible run states of a scan.
#[derive(Debug, Clone, Copy, PartialEq, Eq, Structural)]
pub enum ScanState {
    Idle,
    Running,
    Paused,
    Completed,
    Cancelled,
}

// ---------------------------------------------------------------------------
// The unit enumeration
// ---------------------------------------------------------------------------

/// The `i`-th unit of work of a scan: targets in caller order, and for each
/// target every build number of the range in order.
pub open spec fn unit_at(req: SearchRequest, i: int) -> (PlatformArch, u32) {
    let rl = req.range_len() as int;
    (req.platforms@[i / rl], (req.start + (i % rl)) as u32)
}

/// Whether some unit of the scan's enumeration probes exactly `(p, n)`.
pub open spec fn covers(req: SearchRequest, p: PlatformArch, n: u32) -> bool {
    exists|i: int| 0 <= i < req.total_units() && #[trigger] unit_at(req, i) == (p, n)
}

/// Coverage of a scan: the unit enumeration hits every (target, number)
/// pair of the requested product exactly once — no unit repeats a pair,
/// every unit lies in the product, and every pair has a unit.
pub proof fn lemma_scan_coverage(req: SearchRequest)
    requires
        req.wf(),
    ensures
        forall|i: int, j: int|
            0 <= i < j < req.total_units() ==> unit_at(req, i) != unit_at(req, j),
        forall|i: int|
            0 <= i < req.total_units() ==> req.platforms@.contains(#[trigger] unit_at(req, i).0)
                && req.start <= unit_at(req, i).1 <= req.end,
        forall|p: PlatformArch, n: u32|
            req.platforms@.contains(p) && req.start <= n <= req.end ==> #[trigger] covers(
                req,
                p,
                n,
            ),
{
    let rl = req.range_len() as int;
    let len = req.platforms@.len() as int;
    assert(rl >= 1);
    assert(req.total_units() == len * rl);
    assert forall|i: int| 0 <= i < req.total_units() implies req.platforms@.contains(
        #[trigger] unit_at(req, i).0,
    ) && req.start <= unit_at(req, i).1 <= req.end by {
        lemma_div_pos_is_pos(i, rl);
        lemma_multiply_divide_lt(i, rl, len);
        assert(rl * len == len * rl) by {
            lemma_mul_is_commutative(rl, len);
        }
        lemma_mod_bound(i, rl);
        assert(req.platforms@[i / rl] == unit_at(req, i).0);
    }
    assert forall|i: int, j: int|
        0 <= i < j < req.total_units() implies unit_at(req, i) != unit_at(req, j) by {
        lemma_div_pos_is_pos(i, rl);
        lemma_div_pos_is_pos(j, rl);
        lemma_mod_bound(i, rl);
        lemma_mod_bound(j, rl);
        lemma_multiply_divide_lt(i, rl, len);
        lemma_multiply_divide_lt(j, rl, len);
        assert(rl * len == len * rl) by {
            lemma_mul_is_commutative(rl, len);
        }
        if unit_at(req, i) == unit_at(req, j) {
            // the numbers agree, so the offsets agree
            assert(req.start + (i % rl) <= req.end);
            assert(req.start + (j % rl) <= req.end);
            assert((req.start + (i % rl)) as u32 == (req.start + (j % rl)) as u32);
            assert(i % rl == j % rl);
            // the targets agree and are distinct per index, so indices agree
            assert(req.platforms@[i / rl] == req.platforms@[j / rl]);
            if i / rl != j / rl {
                assert(false);
            }
            lemma_fundamental_div_mod(i, rl);
            lemma_fundamental_div_mod(j, rl);
            assert(false);
        }
    }
    assert forall|p: PlatformArch, n: u32|
        req.platforms@.contains(p) && req.start <= n <= req.end implies #[trigger] covers(
        req,
        p,
        n,
    ) by {
        let pi = choose|pi: int| 0 <= pi < len && req.platforms@[pi] == p;
        let off = n - req.start;
        let i = pi * rl + off;
        assert(0 <= off < rl);
        assert(i < len * rl) by (nonlinear_arith)
            requires
                0 <= pi < len,
                0 <= off < rl,
                i == pi * rl + off,
        ;
        assert(0 <= i) by (nonlinear_arith)
            requires
                0 <= pi,
                0 <= off,
                rl >= 1,
                i == pi * rl + off,
        ;
        lemma_fundamental_div_mod_converse(i, rl, pi, off);
        assert(unit_at(req, i) == (p, n));
    }
}

// ---------------------------------------------------------------------------
// The abstract model of a scan
// ---------------------------------------------------------------------------

/// The counters and flags of a scan, abstracted from the machine words
/// that carry them.
pub struct ScanModel {
    pub cap: nat,
    pub total: nat,
    pub next: nat,
    pub in_flight: nat,
    pub processed: nat,
    pub started: bool,
    pub paused: bool,
    pub cancelled: bool,
}

impl ScanModel {
    /// Whether the scheduler may admit one more probe: it runs, is neither
    /// paused nor cancelled, work remains, and a concurrency slot is free.
    pub open spec fn can_admit(self) -> bool {
        &&& self.started
        &&& !self.paused
        &&& !self.cancelled
        &&& self.next < self.total
        &&& self.in_flight < self.cap
    }
}

/// The things that can happen to a scan.
pub enum ScanEvent {
    Start,
    Pause,
    Resume,
    Cancel,
    Admit,
    Finish,
}

/// How each event moves the model. An admission attempt that cannot admit,
/// and a completion report with nothing in flight, change nothing.
pub open spec fn step(m: ScanModel, e: ScanEvent) -> ScanModel {
    match e {
        ScanEvent::Start => ScanModel { started: true, ..m },
        ScanEvent::Pause => ScanModel { paused: true, ..m },
        ScanEvent::Resume => ScanModel { paused: false, ..m },
        ScanEvent::Cancel => ScanModel { cancelled: true, paused: false, ..m },
        ScanEvent::Admit => if m.can_admit() {
            ScanModel { next: m.next + 1, in_flight: m.in_flight + 1, ..m }
        } else {
            m
        },
        ScanEvent::Finish => if m.in_flight >= 1 {
            ScanModel { processed: m.processed + 1, in_flight: (m.in_flight - 1) as nat, ..m }
        } else {
            m
        },
    }
}

/// The model after a whole sequence of events.
pub open spec fn run_steps(m: ScanModel, es: Seq<ScanEvent>) -> ScanModel
    decreases es.len(),
{
    if es.len() == 0 {
        m
    } else {
        step(run_steps(m, es.drop_last()), es.last())
    }
}

/// Once cancelled, a scan stays cancelled, and completions only drain what
/// was already in flight: the sum of processed and in-flight probes never
/// grows again.
pub proof fn lemma_cancelled_drains(m: ScanModel, es: Seq<ScanEvent>)
    requires
        m.cancelled,
    ensures
        run_steps(m, es).cancelled,
        run_steps(m, es).processed + run_steps(m, es).in_flight <= m.processed + m.in_flight,
    decreases es.len(),
{
    if es.len() > 0 {
        lemma_cancelled_drains(m, es.drop_last());
    }
}

/// Cancellation latency: after `cancel`, no matter what events follow, at
/// most `cap` more probes complete — only what already held a slot drains.
pub proof fn lemma_cancellation_latency(m: ScanModel, es: Seq<ScanEvent>)
    requires
        m.cancelled,
        m.in_flight <= m.cap,
    ensures
        run_steps(m, es).processed <= m.processed + m.cap,
{
    lemma_cancelled_drains(m, es);
}

// ---------------------------------------------------------------------------
// The scheduler
// ---------------------------------------------------------------------------

/// The bounded-concurrency probe scheduler of one scan. It enumerates the
/// (target, build number) product in order, admits at most `concurrency_cap`
/// probes at a time, honours pause and cancellation at every admission, and
/// counts completions. The caller performs each admitted probe and reports
/// its outcome back.
pub struct Scheduler {
    pub req: SearchRequest,
    pub total: u64,
    pub next: u64,
    pub in_flight: usize,
    pub processed: u64,
    pub found: Vec<(String, PlatformArch)>,
    pub started: bool,
    pub paused: bool,
    pub cancelled: bool,
}

impl Scheduler {
    /// The abstract counters and flags of this scheduler.
    pub open spec fn model(self) -> ScanModel {
        ScanModel {
            cap: self.req.concurrency_cap as nat,
            total: self.total as nat,
            next: self.next as nat,
            in_flight: self.in_flight as nat,
            processed: self.processed as nat,
            started: self.started,
            paused: self.paused,
            cancelled: self.cancelled,
        }
    }

    /// A sound scheduler: the request is well-formed, the stored total is
    /// the size of the product, admissions never pass the total, every
    /// admitted probe is processed or in flight, and the slots in use never
    /// pass the bound.
    pub open spec fn wf(self) -> bool {
        &&& self.req.wf()
        &&& self.total == self.req.total_units()
        &&& self.next <= self.total
        &&& self.processed + self.in_flight == self.next
        &&& self.in_flight <= self.req.concurrency_cap
    }

    /// The run state, derived: cancellation dominates, a scan that has
    /// admitted and drained everything is complete, and a paused scan
    /// otherwise reports paused.
    pub open spec fn state_spec(self) -> ScanState {
        if self.cancelled {
            ScanState::Cancelled
        } else if !self.started {
            ScanState::Idle
        } else if self.next == self.total && self.in_flight == 0 {
            ScanState::Completed
        } else if self.paused {
            ScanState::Paused
        } else {
            ScanState::Running
        }
    }

    /// Prepares a scan of `req`; nothing is admitted until `start`.
    pub fn new(req: SearchRequest) -> (r: Scheduler)
        requires
            req.wf(),
        ensures
            r.wf(),
            r.req == req,
            r.state_spec() == ScanState::Idle,
            r.next == 0 && r.in_flight == 0 && r.processed == 0,
            !r.started && !r.paused && !r.cancelled,
            r.found@ =~= Seq::<(String, PlatformArch)>::empty(),
            r.total == req.total_units(),
    {
        proof {
            req.lemma_total_units_bounded();
            crate::request::lemma_distinct_platforms_bounded(req.platforms@);
        }
        let range_len: u64 = (req.end - req.start) as u64 + 1;
        let count: u64 = req.platforms.len() as u64;
        proof {
            assert(count * range_len <= 5 * 0x1_0000_0000) by (nonlinear_arith)
                requires
                    count <= 5,
                    range_len <= 0x1_0000_0000,
            ;
        }
        let total: u64 = count * range_len;
        Scheduler {
            req,
            total,
            next: 0,
            in_flight: 0,
            processed: 0,
            found: Vec::new(),
            started: false,
            paused: false,
            cancelled: false,
        }
    }

    /// Begins the run: admission may start.
    pub fn start(&mut self)
        requires
            old(self).wf(),
        ensures
            final(self).wf(),
            final(self).model() == step(old(self).model(), ScanEvent::Start),
            final(self).req == old(self).req,
            final(self).found == old(self).found,
    {
        self.started = true;
    }

    /// Pauses admission; probes already admitted run to completion.
    pub fn pause(&mut self)
        requires
            old(self).wf(),
        ensures
            final(self).wf(),
            final(self).model() == step(old(self).model(), ScanEvent::Pause),
            final(self).req == old(self).req,
            final(self).found == old(self).found,
    {
        self.paused = true;
    }

    /// Resumes admission after a pause.
    pub fn resume(&mut self)
        requires
            old(self).wf(),
        ensures
            final(self).wf(),
            final(self).model() == step(old(self).model(), ScanEvent::Resume),
            final(self).req == old(self).req,
            final(self).found == old(self).found,
    {
        self.paused = false;
    }

    /// Cancels the run: no further probe is admitted, ever; probes already
    /// admitted may still report. Cancellation is never cleared.
    pub fn cancel(&mut self)
        requires
            old(self).wf(),
        ensures
            final(self).wf(),
            final(self).model() == step(old(self).model(), ScanEvent::Cancel),
            final(self).state_spec() == ScanState::Cancelled,
            final(self).req == old(self).req,
            final(self).found == old(self).found,
    {
        self.cancelled = true;
        self.paused = false;
    }

    /// Admits the next probe when the scan runs, work remains and a slot is
    /// free; otherwise changes nothing and returns nothing. The admitted
    /// task is the next unit of the enumeration, its URL generated from the
    /// scan's version and that unit.
    pub fn next_probe(&mut self) -> (r: Option<ProbeTask>)
        requires
            old(self).wf(),
        ensures
            final(self).wf(),
            final(self).model() == step(old(self).model(), ScanEvent::Admit),
            final(self).req == old(self).req,
            final(self).found == old(self).found,
            match r {
                Some(task) => {
                    &&& old(self).model().can_admit()
                    &&& task.platform == unit_at(old(self).req, old(self).next as int).0
                    &&& task.number == unit_at(old(self).req, old(self).next as int).1
                    &&& task.url@ == url_chars(task.platform, old(self).req.version@, task.number)
                },
                None => !old(self).model().can_admit() && *final(self) == *old(self),
            },
    {
        if !self.started || self.paused || self.cancelled {
            return None;
        }
        if self.next >= self.total {
            return None;
        }
        if self.in_flight >= self.req.concurrency_cap {
            return None;
        }
        let range_len: u64 = (self.req.end - self.req.start) as u64 + 1;
        let idx: u64 = self.next / range_len;
        let off: u64 = self.next % range_len;
        proof {
            let rl = self.req.range_len() as int;
            let len = self.req.platforms@.len() as int;
            lemma_div_pos_is_pos(self.next as int, rl);
            lemma_multiply_divide_lt(self.next as int, rl, len);
            assert(rl * len == len * rl) by {
                lemma_mul_is_commutative(rl, len);
            }
            lemma_mod_bound(self.next as int, rl);
            assert(range_len as int == rl);
            assert(idx as int == self.next as int / rl);
            assert(off as int == self.next as int % rl);
            assert(0 <= (idx as int) && (idx as int) < len);
            assert(0 <= (off as int) && (off as int) < rl);
            assert(self.req.start as int + off as int <= self.req.end as int);
            crate::request::lemma_distinct_platforms_bounded(self.req.platforms@);
            assert((idx as int) < 5);
            assert(idx as usize as int == idx as int);
            assert(self.req.platforms@[idx as int] == unit_at(self.req, self.next as int).0);
        }
        let number: u32 = self.req.start + (off as u32);
        let platform: PlatformArch = self.req.platforms[idx as usize];
        let url = UrlGenerator::generate_url(platform, self.req.version.as_str(), number);
        self.next = self.next + 1;
        self.in_flight = self.in_flight + 1;
        Some(ProbeTask { url, platform, number })
    }

    /// Takes one probe's outcome: the slot is freed, the processed count
    /// grows by one, and a hit is appended to the results.
    pub fn report(&mut self, outcome: ProbeOutcome)
        requires
            old(self).wf(),
            old(self).in_flight >= 1,
        ensures
            final(self).wf(),
            final(self).model() == step(old(self).model(), ScanEvent::Finish),
            final(self).req == old(self).req,
            final(self).processed == old(self).processed + 1,
            final(self).in_flight == old(self).in_flight - 1,
            match outcome {
                ProbeOutcome::Found { url, platform } => final(self).found@ == old(
                    self,
                ).found@.push((url, platform)),
                _ => final(self).found@ == old(self).found@,
            },
    {
        self.processed = self.processed + 1;
        self.in_flight = self.in_flight - 1;
        match outcome {
            ProbeOutcome::Found { url, platform } => {
                self.found.push((url, platform));
            },
            _ => {},
        }
    }

    /// The processed count and the planned total of this scan.
    pub fn progress(&self) -> (r: (u64, u64))
        ensures
            r.0 == self.processed,
            r.1 == self.total,
    {
        (self.processed, self.total)
    }

    /// The run state.
    pub fn state(&self) -> (r: ScanState)
        ensures
            r == self.state_spec(),
    {
        if self.cancelled {
            ScanState::Cancelled
        } else if !self.started {
            ScanState::Idle
        } else if self.next == self.total && self.in_flight == 0 {
            ScanState::Completed
        } else if self.paused {
            ScanState::Paused
        } else {
            ScanState::Running
        }
    }

    /// The hits reported so far, in arrival order.
    pub fn results(&self) -> (r: &Vec<(String, PlatformArch)>)
        ensures
            r@ == self.found@,
    {
        &self.found
    }

    /// Hands the hits out, consuming the scheduler.
    pub fn into_results(self) -> (r: Vec<(String, PlatformArch)>)
        ensures
            r@ == self.found@,
    {
        self.found
    }
}

} // verus!
