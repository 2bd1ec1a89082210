use loaderspot::url::extract_build_number;
use loaderspot::{PlatformArch, UrlGenerator};

const BASE: &str = "https://upgrade.scdn.co/upgrade/client/";

#[test]
fn generates_windows_x64_url() {
    let url = UrlGenerator::generate_url(PlatformArch::WinX64, "1.1.68.632.g2b11de83", 11);
    assert_eq!(
        url,
        format!("{}win32-x86_64/spotify_installer-1.1.68.632.g2b11de83-11.exe", BASE)
    );
}

#[test]
fn generates_one_url_per_target() {
    let v = "1.2.3.4.gaabbccdd";
    assert_eq!(
        UrlGenerator::generate_url(PlatformArch::WinX86, v, 0),
        format!("{}win32-x86/spotify_installer-{}-0.exe", BASE, v)
    );
    assert_eq!(
        UrlGenerator::generate_url(PlatformArch::WinArm64, v, 42),
        format!("{}win32-arm64/spotify_installer-{}-42.exe", BASE, v)
    );
    assert_eq!(
        UrlGenerator::generate_url(PlatformArch::MacOsIntel, v, 7),
        format!("{}osx-x86_64/spotify-autoupdate-{}-7.tbz", BASE, v)
    );
    assert_eq!(
        UrlGenerator::generate_url(PlatformArch::MacOsArm64, v, 100),
        format!("{}osx-arm64/spotify-autoupdate-{}-100.tbz", BASE, v)
    );
}

#[test]
fn generation_is_deterministic() {
    let a = UrlGenerator::generate_url(PlatformArch::WinX64, "1.2.3.4.g00000000", 123);
    let b = UrlGenerator::generate_url(PlatformArch::WinX64, "1.2.3.4.g00000000", 123);
    assert_eq!(a, b);
}

#[test]
fn round_trip_recovers_build_number() {
    for &p in &[
        PlatformArch::WinX86,
        PlatformArch::WinX64,
        PlatformArch::WinArm64,
        PlatformArch::MacOsIntel,
        PlatformArch::MacOsArm64,
    ] {
        for &n in &[0u32, 1, 11, 999, 5000, 4294967295] {
            let url = UrlGenerator::generate_url(p, "1.1.68.632.g2b11de83", n);
            assert_eq!(extract_build_number(&url), Some(n));
        }
    }
}

#[test]
fn round_trip_survives_odd_versions() {
    let url = UrlGenerator::generate_url(PlatformArch::WinX64, "weird-version-7", 55);
    assert_eq!(extract_build_number(&url), Some(55));
}

#[test]
fn extract_rejects_foreign_shapes() {
    assert_eq!(extract_build_number("https://example.org/file.exe"), None);
    assert_eq!(extract_build_number("no-extension-55"), None);
    assert_eq!(extract_build_number("ends-with-55.zip"), None);
    assert_eq!(extract_build_number("55.exe"), None);
    assert_eq!(extract_build_number(".exe"), None);
    assert_eq!(extract_build_number(""), None);
}

#[test]
fn extract_rejects_oversized_numbers() {
    assert_eq!(extract_build_number("x-4294967295.exe"), Some(4294967295));
    assert_eq!(extract_build_number("x-4294967296.exe"), None);
    assert_eq!(extract_build_number("x-99999999999999999999.exe"), None);
}

#[test]
fn templates_carry_both_slots() {
    for &p in &[
        PlatformArch::WinX86,
        PlatformArch::WinX64,
        PlatformArch::WinArm64,
        PlatformArch::MacOsIntel,
        PlatformArch::MacOsArm64,
    ] {
        let t = p.path_template();
        assert!(t.contains("{version}"));
        assert!(t.contains("{number}"));
    }
    assert_eq!(
        PlatformArch::WinX64.path_template(),
        "win32-x86_64/spotify_installer-{version}-{number}.exe"
    );
}

#[test]
fn labels_and_names() {
    assert_eq!(PlatformArch::WinX86.to_string(), "WIN32");
    assert_eq!(PlatformArch::WinX64.to_string(), "WIN64");
    assert_eq!(PlatformArch::WinArm64.to_string(), "WIN-ARM64");
    assert_eq!(PlatformArch::MacOsIntel.to_string(), "OSX");
    assert_eq!(PlatformArch::MacOsArm64.to_string(), "OSX-ARM64");
    assert_eq!(PlatformArch::WinX86.name(), "Windows x86");
    assert_eq!(PlatformArch::MacOsArm64.name(), "macOS arm64");
    let all = PlatformArch::all();
    assert_eq!(all.len(), 5);
    assert_eq!(all[0], PlatformArch::WinX86);
    assert_eq!(all[4], PlatformArch::MacOsArm64);
}
