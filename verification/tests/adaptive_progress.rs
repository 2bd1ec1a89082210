use loaderspot::{AdaptiveSearch, PlatformArch, ProgressTracker, SearchEvent};

#[test]
fn adaptive_first_window_covers_the_start() {
    let s = AdaptiveSearch::new(vec![PlatformArch::WinX64, PlatformArch::MacOsIntel]);
    assert_eq!((s.window_start, s.window_end), (0, 1000));
    assert_eq!(s.rounds_left, 15);
}

#[test]
fn adaptive_rounds_advance_by_the_increment() {
    let mut s = AdaptiveSearch::new(vec![PlatformArch::WinX64]);
    let w1 = s.next_round(1).expect("one target missing");
    assert_eq!(w1, (1001, 2000));
    let w2 = s.next_round(1).expect("still missing");
    assert_eq!(w2, (2001, 3000));
    assert_eq!(s.rounds_left, 13);
}

#[test]
fn adaptive_stops_when_nothing_is_missing() {
    let mut s = AdaptiveSearch::new(vec![PlatformArch::WinX64]);
    assert!(s.next_round(0).is_none());
    assert_eq!((s.window_start, s.window_end), (0, 1000));
}

#[test]
fn adaptive_budget_is_fifteen_rounds() {
    let mut s = AdaptiveSearch::new(vec![PlatformArch::WinX64]);
    for _ in 0..15 {
        assert!(s.next_round(1).is_some());
    }
    assert_eq!(s.rounds_left, 0);
    assert!(s.next_round(1).is_none());
    assert_eq!(s.window_end, 16000);
}

#[test]
fn tracker_counts_progress_against_the_plan() {
    let mut t = ProgressTracker::new(6, 1);
    assert!(t.searching);
    let _ = t.apply(SearchEvent::VersionStart {
        version: "1.2.3.4.g00000000".to_string(),
        index: 1,
        total: 1,
    });
    for _ in 0..6 {
        let e = t.apply(SearchEvent::Progress);
        assert!(!e.run_finished);
    }
    assert_eq!(t.processed, 6);
    assert_eq!(t.total_work, 6);
    assert_eq!(t.current_version.as_deref(), Some("1.2.3.4.g00000000"));
}

#[test]
fn tracker_flags_a_targets_first_hit() {
    let mut t = ProgressTracker::new(10, 1);
    let e1 = t.apply(SearchEvent::Result {
        url: "a-1.exe".to_string(),
        platform: PlatformArch::WinX64,
    });
    assert!(e1.new_platform);
    let e2 = t.apply(SearchEvent::Result {
        url: "a-2.exe".to_string(),
        platform: PlatformArch::WinX64,
    });
    assert!(!e2.new_platform);
    let e3 = t.apply(SearchEvent::Result {
        url: "b-1.tbz".to_string(),
        platform: PlatformArch::MacOsIntel,
    });
    assert!(e3.new_platform);
    assert_eq!(t.found.len(), 3);
}

#[test]
fn tracker_reports_an_empty_run() {
    let mut t = ProgressTracker::new(4, 1);
    for _ in 0..4 {
        let _ = t.apply(SearchEvent::Progress);
    }
    assert!(!t.found_any());
    let end = t.apply(SearchEvent::RunComplete);
    assert!(end.run_finished);
    assert!(!end.found_any);
    assert!(!t.searching);
}

#[test]
fn tracker_reports_a_fruitful_run() {
    let mut t = ProgressTracker::new(4, 2);
    let _ = t.apply(SearchEvent::Result {
        url: "x-3.exe".to_string(),
        platform: PlatformArch::WinX86,
    });
    let _ = t.apply(SearchEvent::ScanComplete { version: "1.2.3.4.g00000000".to_string() });
    let end = t.apply(SearchEvent::RunComplete);
    assert!(end.run_finished);
    assert!(end.found_any);
}
