use loaderspot::scheduler::classify_status;
use loaderspot::{PlatformArch, ProbeOutcome, ScanState, Scheduler, SearchRequest};

fn request(platforms: Vec<PlatformArch>, start: u32, end: u32) -> SearchRequest {
    SearchRequest::new("1.1.68.632.g2b11de83".to_string(), platforms, start, end, 50)
        .expect("request is valid")
}

#[test]
fn coverage_probes_every_pair_exactly_once() {
    let req = request(vec![PlatformArch::WinX64, PlatformArch::MacOsIntel], 5, 9);
    let mut sched = Scheduler::new(req);
    sched.start();
    let mut seen: Vec<(PlatformArch, u32)> = Vec::new();
    while let Some(task) = sched.next_probe() {
        seen.push((task.platform, task.number));
        sched.report(ProbeOutcome::NotFound);
    }
    assert_eq!(sched.state(), ScanState::Completed);
    assert_eq!(seen.len(), 10);
    for &p in &[PlatformArch::WinX64, PlatformArch::MacOsIntel] {
        for n in 5u32..=9 {
            let count = seen.iter().filter(|u| **u == (p, n)).count();
            assert_eq!(count, 1, "pair probed exactly once");
        }
    }
    assert_eq!(sched.progress(), (10, 10));
}

#[test]
fn tasks_carry_generated_urls() {
    let req = request(vec![PlatformArch::WinX64], 11, 11);
    let mut sched = Scheduler::new(req);
    sched.start();
    let task = sched.next_probe().expect("one unit");
    assert_eq!(
        task.url,
        "https://upgrade.scdn.co/upgrade/client/win32-x86_64/spotify_installer-1.1.68.632.g2b11de83-11.exe"
    );
    assert_eq!(task.number, 11);
    assert_eq!(task.platform, PlatformArch::WinX64);
}

#[test]
fn admission_respects_the_concurrency_cap() {
    let req = request(vec![PlatformArch::WinX64], 0, 999);
    let mut sched = Scheduler::new(req);
    sched.start();
    let mut admitted = 0;
    while let Some(_task) = sched.next_probe() {
        admitted += 1;
    }
    // nothing reported back: admission stops exactly at the cap
    assert_eq!(admitted, 50);
    sched.report(ProbeOutcome::NotFound);
    assert!(sched.next_probe().is_some());
}

#[test]
fn cancellation_latency_is_bounded_by_the_cap() {
    let cap = 50u64;
    let req = request(vec![PlatformArch::WinX64], 0, 999);
    let mut sched = Scheduler::new(req);
    sched.start();
    // twenty probes complete normally
    for _ in 0..20 {
        let _ = sched.next_probe().expect("admitted");
        sched.report(ProbeOutcome::NotFound);
    }
    let processed_before = sched.progress().0;
    assert_eq!(processed_before, 20);
    // fill every slot, then cancel
    let mut in_flight = 0;
    while let Some(_task) = sched.next_probe() {
        in_flight += 1;
    }
    assert!(in_flight as u64 <= cap);
    sched.cancel();
    assert_eq!(sched.state(), ScanState::Cancelled);
    // no further admission, ever
    assert!(sched.next_probe().is_none());
    // the in-flight probes drain; nothing more completes
    for _ in 0..in_flight {
        sched.report(ProbeOutcome::NotFound);
        assert!(sched.next_probe().is_none());
    }
    let processed_after = sched.progress().0;
    assert!(processed_after - processed_before <= cap);
    assert_eq!(sched.state(), ScanState::Cancelled);
}

#[test]
fn pause_stops_admission_and_resume_restores_it() {
    let req = request(vec![PlatformArch::WinX64], 0, 9);
    let mut sched = Scheduler::new(req);
    sched.start();
    let _ = sched.next_probe().expect("running admits");
    sched.pause();
    assert_eq!(sched.state(), ScanState::Paused);
    assert!(sched.next_probe().is_none());
    // a probe admitted before the pause still completes
    sched.report(ProbeOutcome::NotFound);
    assert!(sched.next_probe().is_none());
    sched.resume();
    assert!(sched.next_probe().is_some());
}

#[test]
fn idle_until_started() {
    let req = request(vec![PlatformArch::WinX64], 0, 9);
    let mut sched = Scheduler::new(req);
    assert_eq!(sched.state(), ScanState::Idle);
    assert!(sched.next_probe().is_none());
    sched.start();
    assert_eq!(sched.state(), ScanState::Running);
    assert!(sched.next_probe().is_some());
}

#[test]
fn hits_are_collected_misses_are_not() {
    let req = request(vec![PlatformArch::WinX64], 10, 12);
    let mut sched = Scheduler::new(req);
    sched.start();
    while let Some(task) = sched.next_probe() {
        let outcome = if task.number == 11 {
            ProbeOutcome::Found { url: task.url, platform: task.platform }
        } else {
            ProbeOutcome::NotFound
        };
        sched.report(outcome);
    }
    assert_eq!(sched.state(), ScanState::Completed);
    let results = sched.into_results();
    assert_eq!(results.len(), 1);
    assert!(results[0].0.ends_with("-11.exe"));
    assert_eq!(results[0].1, PlatformArch::WinX64);
}

#[test]
fn rate_limited_counts_as_a_miss() {
    let req = request(vec![PlatformArch::WinX64], 0, 1);
    let mut sched = Scheduler::new(req);
    sched.start();
    while let Some(_task) = sched.next_probe() {
        sched.report(ProbeOutcome::RateLimited);
    }
    assert_eq!(sched.state(), ScanState::Completed);
    assert_eq!(sched.results().len(), 0);
    assert_eq!(sched.progress(), (2, 2));
}

#[test]
fn classify_status_maps_codes() {
    let p = PlatformArch::WinX64;
    assert!(matches!(
        classify_status(200, "u".to_string(), p),
        ProbeOutcome::Found { .. }
    ));
    assert!(matches!(
        classify_status(204, "u".to_string(), p),
        ProbeOutcome::Found { .. }
    ));
    assert!(matches!(classify_status(429, "u".to_string(), p), ProbeOutcome::RateLimited));
    assert!(matches!(classify_status(404, "u".to_string(), p), ProbeOutcome::NotFound));
    assert!(matches!(classify_status(500, "u".to_string(), p), ProbeOutcome::NotFound));
    assert!(matches!(classify_status(301, "u".to_string(), p), ProbeOutcome::NotFound));
}
