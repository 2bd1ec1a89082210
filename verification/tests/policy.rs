use loaderspot::{applies, extract_base_version, short_version, should_use_win_x86,
    validate_version, PlatformArch};

#[test]
fn x86_applies_at_cutoff() {
    assert!(applies(PlatformArch::WinX86, "1.2.53.900.gabcdef01"));
    assert!(should_use_win_x86("1.2.53.900.gabcdef01"));
}

#[test]
fn x86_does_not_apply_past_cutoff() {
    assert!(!applies(PlatformArch::WinX86, "1.2.54.0.gabcdef01"));
    assert!(!should_use_win_x86("1.2.54.0.gabcdef01"));
}

#[test]
fn x86_applies_fail_open_on_unparseable() {
    assert!(applies(PlatformArch::WinX86, "not-a-version"));
    assert!(should_use_win_x86("not-a-version"));
    assert!(should_use_win_x86("1.x.3.4"));
    assert!(should_use_win_x86("1.2"));
    assert!(should_use_win_x86(""));
}

#[test]
fn x86_policy_boundaries() {
    assert!(should_use_win_x86("1.2.53.0.g00000000"));
    assert!(should_use_win_x86("1.1.99.0.g00000000"));
    assert!(should_use_win_x86("0.9.9.9.g00000000"));
    assert!(!should_use_win_x86("1.3.0.0.g00000000"));
    assert!(!should_use_win_x86("2.0.0.0.g00000000"));
}

#[test]
fn other_targets_always_apply() {
    assert!(applies(PlatformArch::WinX64, "9.9.9.9.g00000000"));
    assert!(applies(PlatformArch::WinArm64, "9.9.9.9.g00000000"));
    assert!(applies(PlatformArch::MacOsIntel, "9.9.9.9.g00000000"));
    assert!(applies(PlatformArch::MacOsArm64, "9.9.9.9.g00000000"));
}

#[test]
fn base_version_takes_first_three_components() {
    assert_eq!(extract_base_version("1.2.53.900.gabcdef01"), "1.2.53");
    assert_eq!(extract_base_version("1.2.3"), "1.2.3");
    assert_eq!(extract_base_version("1.2"), "1.2");
    assert_eq!(extract_base_version(""), "");
}

#[test]
fn validate_version_accepts_full_shape() {
    assert!(validate_version("1.1.68.632.g2b11de83"));
    assert!(validate_version("0.0.0.0.g00000000"));
}

#[test]
fn validate_version_rejects_wrong_shapes() {
    assert!(!validate_version("1.1.68.632"));
    assert!(!validate_version("1.1.68.632.g2b11de8"));
    assert!(!validate_version("1.1.68.632.g2b11de834"));
    assert!(!validate_version("1.1.68.632.G2B11DE83"));
    assert!(!validate_version("1.1.68.x.g2b11de83"));
    assert!(!validate_version("1.1.68.632.g2b11deg3"));
    assert!(!validate_version("not-a-version"));
    assert!(!validate_version(""));
}

#[test]
fn short_version_cuts_at_commit() {
    assert_eq!(short_version("1.1.68.632.g2b11de83"), "1.1.68.632");
}

#[test]
fn short_version_without_commit_keeps_four_components() {
    assert_eq!(short_version("1.2.3.4.5"), "1.2.3.4");
    assert_eq!(short_version("1.2.3"), "1.2.3");
    assert_eq!(short_version("plain"), "plain");
}
