use loaderspot::aggregate::missing_platforms;
use loaderspot::{
    get_latest_urls, PlatformArch, ProbeOutcome, ScanState, Scheduler, SearchRequest,
    UrlGenerator,
};

const V: &str = "1.1.68.632.g2b11de83";

fn url(p: PlatformArch, n: u32) -> String {
    UrlGenerator::generate_url(p, V, n)
}

#[test]
fn aggregation_keeps_the_maximum_build() {
    let found = vec![
        (url(PlatformArch::WinX64, 100), PlatformArch::WinX64),
        (url(PlatformArch::WinX64, 50), PlatformArch::WinX64),
    ];
    let agg = get_latest_urls(&found, &vec![V.to_string()], "test");
    assert_eq!(agg.entries.len(), 1);
    assert_eq!(agg.entries[0].0, "WIN64");
    assert_eq!(agg.entries[0].1, url(PlatformArch::WinX64, 100));
}

#[test]
fn aggregation_keeps_the_maximum_build_in_reverse_order() {
    let found = vec![
        (url(PlatformArch::WinX64, 50), PlatformArch::WinX64),
        (url(PlatformArch::WinX64, 100), PlatformArch::WinX64),
    ];
    let agg = get_latest_urls(&found, &vec![V.to_string()], "test");
    assert_eq!(agg.entries.len(), 1);
    assert_eq!(agg.entries[0].1, url(PlatformArch::WinX64, 100));
}

#[test]
fn aggregation_first_seen_wins_on_equal_builds() {
    // two distinct URLs that carry the same build number
    let first = UrlGenerator::generate_url(PlatformArch::MacOsIntel, "1.2.3.4.gaaaaaaaa", 7);
    let second = UrlGenerator::generate_url(PlatformArch::MacOsIntel, "1.2.3.4.gbbbbbbbb", 7);
    assert_ne!(first, second);
    let found = vec![
        (first.clone(), PlatformArch::MacOsIntel),
        (second, PlatformArch::MacOsIntel),
    ];
    let agg = get_latest_urls(&found, &vec![V.to_string()], "src");
    assert_eq!(agg.entries.len(), 1);
    assert_eq!(agg.entries[0].0, "OSX");
    assert_eq!(agg.entries[0].1, first);
}

#[test]
fn aggregation_separates_targets() {
    let found = vec![
        (url(PlatformArch::WinX64, 5), PlatformArch::WinX64),
        (url(PlatformArch::MacOsArm64, 9), PlatformArch::MacOsArm64),
        (url(PlatformArch::WinX64, 8), PlatformArch::WinX64),
    ];
    let agg = get_latest_urls(&found, &vec![V.to_string()], "s");
    // canonical target order: WIN64 before OSX-ARM64
    assert_eq!(agg.entries.len(), 2);
    assert_eq!(agg.entries[0].0, "WIN64");
    assert_eq!(agg.entries[0].1, url(PlatformArch::WinX64, 8));
    assert_eq!(agg.entries[1].0, "OSX-ARM64");
    assert_eq!(agg.entries[1].1, url(PlatformArch::MacOsArm64, 9));
}

#[test]
fn empty_run_yields_the_unknown_sentinel() {
    let found: Vec<(String, PlatformArch)> = Vec::new();
    let agg = get_latest_urls(&found, &vec![V.to_string()], "test");
    assert_eq!(agg.entries.len(), 1);
    assert_eq!(agg.entries[0].0, "unknown");
    assert_eq!(agg.entries[0].1, "unknown");
    assert_eq!(agg.version, V);
    assert_eq!(agg.source, "test");
}

#[test]
fn unextractable_urls_are_ignored() {
    let found = vec![("https://example.org/other".to_string(), PlatformArch::WinX64)];
    let agg = get_latest_urls(&found, &vec![V.to_string()], "t");
    assert_eq!(agg.entries.len(), 1);
    assert_eq!(agg.entries[0].0, "unknown");
}

#[test]
fn versions_join_into_metadata() {
    let found: Vec<(String, PlatformArch)> = Vec::new();
    let agg = get_latest_urls(
        &found,
        &vec!["1.2.3.4.g00000000".to_string(), "1.2.3.5.g00000000".to_string()],
        "src",
    );
    assert_eq!(agg.version, "1.2.3.4.g00000000, 1.2.3.5.g00000000");
    assert_eq!(agg.source, "src");
}

#[test]
fn concrete_scenario_finds_build_eleven() {
    let req = SearchRequest::new(V.to_string(), vec![PlatformArch::WinX64], 10, 12, 100)
        .expect("request is valid");
    let mut sched = Scheduler::new(req);
    sched.start();
    while let Some(task) = sched.next_probe() {
        let outcome = if task.number == 11 {
            ProbeOutcome::Found { url: task.url, platform: task.platform }
        } else {
            ProbeOutcome::NotFound
        };
        sched.report(outcome);
    }
    assert_eq!(sched.state(), ScanState::Completed);
    let found = sched.into_results();
    let agg = get_latest_urls(&found, &vec![V.to_string()], "stub");
    assert_eq!(agg.entries.len(), 1);
    assert_eq!(agg.entries[0].0, "WIN64");
    assert_eq!(
        agg.entries[0].1,
        format!(
            "https://upgrade.scdn.co/upgrade/client/win32-x86_64/spotify_installer-{}-11.exe",
            V
        )
    );
}

#[test]
fn missing_platforms_lists_targets_without_hits() {
    let found = vec![(url(PlatformArch::WinX64, 3), PlatformArch::WinX64)];
    let platforms = vec![
        PlatformArch::WinX64,
        PlatformArch::MacOsIntel,
        PlatformArch::MacOsArm64,
    ];
    let missing = missing_platforms(&platforms, &found);
    assert_eq!(missing, vec![PlatformArch::MacOsIntel, PlatformArch::MacOsArm64]);
    let none_found: Vec<(String, PlatformArch)> = Vec::new();
    assert_eq!(missing_platforms(&platforms, &none_found).len(), 3);
}
