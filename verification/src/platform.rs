use vstd::prelude::*;

verus! {

/// A deployment target: an operating system together with a processor
/// architecture. Each target owns a URL path template with one `{version}`
/// and one `{number}` substitution slot, a short label used as a result key,
/// and a human-readable name.
#[derive(Debug, Clone, Copy, PartialEq, Eq, Hash, Structural)]
pub enum PlatformArch {
    WinX86,
    WinX64,
    WinArm64,
    MacOsIntel,
    MacOsArm64,
}

/// The targets in their canonical order.
pub open spec fn platform_order() -> Seq<PlatformArch> {
    seq![
        PlatformArch::WinX86,
        PlatformArch::WinX64,
        PlatformArch::WinArm64,
        PlatformArch::MacOsIntel,
        PlatformArch::MacOsArm64,
    ]
}

/// The path template of a target, with its two substitution slots.
pub open spec fn template_chars(p: PlatformArch) -> Seq<char> {
    match p {
        PlatformArch::WinX86 => "win32-x86/spotify_installer-{version}-{number}.exe"@,
        PlatformArch::WinX64 => "win32-x86_64/spotify_installer-{version}-{number}.exe"@,
        PlatformArch::WinArm64 => "win32-arm64/spotify_installer-{version}-{number}.exe"@,
        PlatformArch::MacOsIntel => "osx-x86_64/spotify-autoupdate-{version}-{number}.tbz"@,
        PlatformArch::MacOsArm64 => "osx-arm64/spotify-autoupdate-{version}-{number}.tbz"@,
    }
}

/// Everything of the path template that stands before the `{version}` slot.
pub open spec fn prefix_chars(p: PlatformArch) -> Seq<char> {
    match p {
        PlatformArch::WinX86 => "win32-x86/spotify_installer-"@,
        PlatformArch::WinX64 => "win32-x86_64/spotify_installer-"@,
        PlatformArch::WinArm64 => "win32-arm64/spotify_installer-"@,
        PlatformArch::MacOsIntel => "osx-x86_64/spotify-autoupdate-"@,
        PlatformArch::MacOsArm64 => "osx-arm64/spotify-autoupdate-"@,
    }
}

/// The file extension that ends the path template, dot included.
pub open spec fn ext_chars(p: PlatformArch) -> Seq<char> {
    match p {
        PlatformArch::WinX86 => ".exe"@,
        PlatformArch::WinX64 => ".exe"@,
        PlatformArch::WinArm64 => ".exe"@,
        PlatformArch::MacOsIntel => ".tbz"@,
        PlatformArch::MacOsArm64 => ".tbz"@,
    }
}

/// The short label of a target, used to key aggregated results.
pub open spec fn label_chars(p: PlatformArch) -> Seq<char> {
    match p {
        PlatformArch::WinX86 => "WIN32"@,
        PlatformArch::WinX64 => "WIN64"@,
        PlatformArch::WinArm64 => "WIN-ARM64"@,
        PlatformArch::MacOsIntel => "OSX"@,
        PlatformArch::MacOsArm64 => "OSX-ARM64"@,
    }
}

/// The human-readable name of a target.
pub open spec fn name_chars(p: PlatformArch) -> Seq<char> {
    match p {
        PlatformArch::WinX86 => "Windows x86"@,
        PlatformArch::WinX64 => "Windows x64"@,
        PlatformArch::WinArm64 => "Windows arm64"@,
        PlatformArch::MacOsIntel => "macOS intel"@,
        PlatformArch::MacOsArm64 => "macOS arm64"@,
    }
}

impl PlatformArch {
    /// The URL path template of this target; it holds exactly one
    /// `{version}` and one `{number}` slot.
    pub fn path_template(&self) -> (r: &'static str)
        ensures
            r@ == template_chars(*self),
    {
        match self {
            PlatformArch::WinX86 => "win32-x86/spotify_installer-{version}-{number}.exe",
            PlatformArch::WinX64 => "win32-x86_64/spotify_installer-{version}-{number}.exe",
            PlatformArch::WinArm64 => "win32-arm64/spotify_installer-{version}-{number}.exe",
            PlatformArch::MacOsIntel => "osx-x86_64/spotify-autoupdate-{version}-{number}.tbz",
            PlatformArch::MacOsArm64 => "osx-arm64/spotify-autoupdate-{version}-{number}.tbz",
        }
    }

    /// The part of the path template that stands before the `{version}` slot.
    pub fn prefix_str(&self) -> (r: &'static str)
        ensures
            r@ == prefix_chars(*self),
    {
        match self {
            PlatformArch::WinX86 => "win32-x86/spotify_installer-",
            PlatformArch::WinX64 => "win32-x86_64/spotify_installer-",
            PlatformArch::WinArm64 => "win32-arm64/spotify_installer-",
            PlatformArch::MacOsIntel => "osx-x86_64/spotify-autoupdate-",
            PlatformArch::MacOsArm64 => "osx-arm64/spotify-autoupdate-",
        }
    }

    /// The file extension that ends the path template.
    pub fn ext_str(&self) -> (r: &'static str)
        ensures
            r@ == ext_chars(*self),
    {
        match self {
            PlatformArch::WinX86 => ".exe",
            PlatformArch::WinX64 => ".exe",
            PlatformArch::WinArm64 => ".exe",
            PlatformArch::MacOsIntel => ".tbz",
            PlatformArch::MacOsArm64 => ".tbz",
        }
    }

    /// The short label of this target, used to key aggregated results.
    pub fn to_string(&self) -> (r: &'static str)
        ensures
            r@ == label_chars(*self),
    {
        match self {
            PlatformArch::WinX86 => "WIN32",
            PlatformArch::WinX64 => "WIN64",
            PlatformArch::WinArm64 => "WIN-ARM64",
            PlatformArch::MacOsIntel => "OSX",
            PlatformArch::MacOsArm64 => "OSX-ARM64",
        }
    }

    /// The human-readable name of this target.
    pub fn name(&self) -> (r: &'static str)
        ensures
            r@ == name_chars(*self),
    {
        match self {
            PlatformArch::WinX86 => "Windows x86",
            PlatformArch::WinX64 => "Windows x64",
            PlatformArch::WinArm64 => "Windows arm64",
            PlatformArch::MacOsIntel => "macOS intel",
            PlatformArch::MacOsArm64 => "macOS arm64",
        }
    }

    /// All targets, in their canonical order.
    pub fn all() -> (r: Vec<PlatformArch>)
        ensures
            r@ == platform_order(),
    {
        let mut v: Vec<PlatformArch> = Vec::new();
        v.push(PlatformArch::WinX86);
        v.push(PlatformArch::WinX64);
        v.push(PlatformArch::WinArm64);
        v.push(PlatformArch::MacOsIntel);
        v.push(PlatformArch::MacOsArm64);
        proof {
            assert(v@ =~= platform_order());
        }
        v
    }
}

/// Distinct targets have distinct labels.
pub proof fn lemma_labels_injective(a: PlatformArch, b: PlatformArch)
    requires
        a != b,
    ensures
        label_chars(a) != label_chars(b),
{
    reveal_strlit("WIN32");
    reveal_strlit("WIN64");
    reveal_strlit("WIN-ARM64");
    reveal_strlit("OSX");
    reveal_strlit("OSX-ARM64");
    assert(label_chars(PlatformArch::WinX86).len() == 5);
    assert(label_chars(PlatformArch::WinX64).len() == 5);
    assert(label_chars(PlatformArch::WinArm64).len() == 9);
    assert(label_chars(PlatformArch::MacOsIntel).len() == 3);
    assert(label_chars(PlatformArch::MacOsArm64).len() == 9);
    assert(label_chars(PlatformArch::WinX86)[3] == '3');
    assert(label_chars(PlatformArch::WinX64)[3] == '6');
    assert(label_chars(PlatformArch::WinArm64)[0] == 'W');
    assert(label_chars(PlatformArch::MacOsArm64)[0] == 'O');
}

} // verus!
