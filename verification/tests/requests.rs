use loaderspot::request::{clamp_connections, parse_range_field, platforms_for_version};
use loaderspot::{
    build_run_plan, filter_valid_versions, parse_range, selected_platforms, PlatformArch,
    RequestError, SearchRequest,
};

#[test]
fn parse_range_reads_both_bounds() {
    assert_eq!(parse_range("0-5000"), (0, 5000));
    assert_eq!(parse_range("10-12"), (10, 12));
    assert_eq!(parse_range("7-7"), (7, 7));
}

#[test]
fn parse_range_falls_back_per_bound() {
    assert_eq!(parse_range("abc-12"), (0, 12));
    assert_eq!(parse_range("10-xyz"), (10, 5000));
    assert_eq!(parse_range("-12"), (0, 12));
    assert_eq!(parse_range("10-"), (10, 5000));
}

#[test]
fn parse_range_falls_back_on_wrong_shape() {
    assert_eq!(parse_range("10"), (0, 5000));
    assert_eq!(parse_range("1-2-3"), (0, 5000));
    assert_eq!(parse_range(""), (0, 5000));
}

#[test]
fn parse_range_field_reads_or_defaults() {
    assert_eq!(parse_range_field("0", 0), 0);
    assert_eq!(parse_range_field("123", 0), 123);
    assert_eq!(parse_range_field("", 5000), 5000);
    assert_eq!(parse_range_field("abc", 5000), 5000);
}

#[test]
fn clamp_connections_bounds_the_cap() {
    assert_eq!(clamp_connections(0), 50);
    assert_eq!(clamp_connections(49), 50);
    assert_eq!(clamp_connections(50), 50);
    assert_eq!(clamp_connections(100), 100);
    assert_eq!(clamp_connections(300), 300);
    assert_eq!(clamp_connections(1000), 300);
}

#[test]
fn selected_platforms_in_canonical_order() {
    assert_eq!(
        selected_platforms(true, false, true, false, true),
        vec![PlatformArch::WinX86, PlatformArch::WinArm64, PlatformArch::MacOsArm64]
    );
    assert_eq!(selected_platforms(false, false, false, false, false), Vec::<PlatformArch>::new());
}

#[test]
fn request_rejects_inverted_range() {
    let r = SearchRequest::new(
        "1.2.3.4.g00000000".to_string(),
        vec![PlatformArch::WinX64],
        10,
        5,
        100,
    );
    assert!(matches!(r, Err(RequestError::InvertedRange)));
}

#[test]
fn request_rejects_empty_selection() {
    let r = SearchRequest::new("1.2.3.4.g00000000".to_string(), vec![], 0, 10, 100);
    assert!(matches!(r, Err(RequestError::NoPlatforms)));
}

#[test]
fn request_dedups_and_clamps() {
    let req = SearchRequest::new(
        "1.2.3.4.g00000000".to_string(),
        vec![PlatformArch::WinX64, PlatformArch::WinX64, PlatformArch::MacOsIntel],
        0,
        10,
        7,
    )
    .expect("valid");
    assert_eq!(req.platforms, vec![PlatformArch::WinX64, PlatformArch::MacOsIntel]);
    assert_eq!(req.concurrency_cap, 50);
}

#[test]
fn filter_keeps_only_well_formed_versions() {
    let lines = vec![
        "1.1.68.632.g2b11de83".to_string(),
        "".to_string(),
        "nonsense".to_string(),
        "1.2.53.900.gabcdef01".to_string(),
    ];
    assert_eq!(
        filter_valid_versions(&lines),
        vec!["1.1.68.632.g2b11de83".to_string(), "1.2.53.900.gabcdef01".to_string()]
    );
}

#[test]
fn pruning_drops_x86_past_cutoff_when_others_remain() {
    let base = vec![PlatformArch::WinX86, PlatformArch::WinX64];
    assert_eq!(
        platforms_for_version(&base, "1.2.54.0.g00000000"),
        vec![PlatformArch::WinX64]
    );
    assert_eq!(platforms_for_version(&base, "1.2.53.0.g00000000"), base);
    // a lone x86 selection is never pruned
    let only = vec![PlatformArch::WinX86];
    assert_eq!(platforms_for_version(&only, "1.2.54.0.g00000000"), only);
}

#[test]
fn plan_rejections_in_input_order() {
    let v = || vec!["1.2.54.0.g00000000".to_string()];
    let p = || vec![PlatformArch::WinX86];
    assert!(matches!(
        build_run_plan(vec![], p(), 0, 10, 100),
        Err(RequestError::NoValidVersions)
    ));
    assert!(matches!(
        build_run_plan(v(), p(), 10, 0, 100),
        Err(RequestError::InvertedRange)
    ));
    assert!(matches!(
        build_run_plan(v(), vec![], 0, 10, 100),
        Err(RequestError::NoPlatforms)
    ));
    assert!(matches!(
        build_run_plan(v(), p(), 0, 10, 100),
        Err(RequestError::WinX86Unsupported)
    ));
    // within the cutoff, a lone x86 selection passes
    assert!(build_run_plan(vec!["1.2.53.0.g00000000".to_string()], p(), 0, 10, 100).is_ok());
}

#[test]
fn plan_totals_account_for_pruning() {
    let versions = vec![
        "1.2.53.0.g00000000".to_string(),  // x86 still offered: 2 targets
        "1.2.54.0.g00000000".to_string(),  // x86 pruned: 1 target
    ];
    let platforms = vec![PlatformArch::WinX86, PlatformArch::WinX64];
    let plan = build_run_plan(versions, platforms, 0, 9, 100).expect("valid");
    assert_eq!(plan.total_work, 10 * 2 + 10 * 1);
    assert_eq!(plan.version_count(), 2);
    let first = plan.scan_request(0);
    assert_eq!(first.platforms, vec![PlatformArch::WinX86, PlatformArch::WinX64]);
    let second = plan.scan_request(1);
    assert_eq!(second.platforms, vec![PlatformArch::WinX64]);
    assert_eq!(second.version, "1.2.54.0.g00000000");
    assert_eq!((second.start, second.end), (0, 9));
}

#[test]
fn error_messages_read_as_shown() {
    assert_eq!(RequestError::NoValidVersions.message(), "Error: No valid versions provided");
    assert_eq!(
        RequestError::InvertedRange.message(),
        "Error: End range must be >= start range"
    );
    assert_eq!(RequestError::NoPlatforms.message(), "Error: No platforms selected");
    assert!(RequestError::WinX86Unsupported.message().contains("1.2.53"));
}
