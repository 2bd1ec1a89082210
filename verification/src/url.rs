use vstd::prelude::*;

use crate::platform::{ext_chars, prefix_chars, template_chars, PlatformArch};
use crate::text::{
    all_digits, decimal_chars, digits_value, is_digit_char, lemma_decimal_all_digits,
    lemma_decimal_round_trip, parse_u32, parse_u32_spec, u32_to_string,
};

verus! {

/// The fixed origin that every candidate URL starts with.
pub open spec fn base_url_chars() -> Seq<char> {
    "https://upgrade.scdn.co/upgrade/client/"@
}

/// The candidate URL of a `(target, version, build number)` triple: the base
/// origin followed by the target's path template with the version and the
/// decimal build number substituted for its two slots.
pub open spec fn url_chars(p: PlatformArch, v: Seq<char>, number: u32) -> Seq<char> {
    base_url_chars() + prefix_chars(p) + v + "-"@ + decimal_chars(number as nat) + ext_chars(p)
}

/// The path template is its prefix, the two slots with their separator, and
/// the extension: `url_chars` fills exactly those slots.
pub proof fn lemma_template_structure(p: PlatformArch)
    ensures
        template_chars(p) == prefix_chars(p) + "{version}"@ + "-"@ + "{number}"@ + ext_chars(p),
{
    reveal_strlit("win32-x86/spotify_installer-{version}-{number}.exe");
    reveal_strlit("win32-x86_64/spotify_installer-{version}-{number}.exe");
    reveal_strlit("win32-arm64/spotify_installer-{version}-{number}.exe");
    reveal_strlit("osx-x86_64/spotify-autoupdate-{version}-{number}.tbz");
    reveal_strlit("osx-arm64/spotify-autoupdate-{version}-{number}.tbz");
    reveal_strlit("win32-x86/spotify_installer-");
    reveal_strlit("win32-x86_64/spotify_installer-");
    reveal_strlit("win32-arm64/spotify_installer-");
    reveal_strlit("osx-x86_64/spotify-autoupdate-");
    reveal_strlit("osx-arm64/spotify-autoupdate-");
    reveal_strlit("{version}");
    reveal_strlit("{number}");
    reveal_strlit("-");
    reveal_strlit(".exe");
    reveal_strlit(".tbz");
    match p {
        PlatformArch::WinX86 => {
            assert(template_chars(p) =~= prefix_chars(p) + "{version}"@ + "-"@ + "{number}"@
                + ext_chars(p));
        },
        PlatformArch::WinX64 => {
            assert(template_chars(p) =~= prefix_chars(p) + "{version}"@ + "-"@ + "{number}"@
                + ext_chars(p));
        },
        PlatformArch::WinArm64 => {
            assert(template_chars(p) =~= prefix_chars(p) + "{version}"@ + "-"@ + "{number}"@
                + ext_chars(p));
        },
        PlatformArch::MacOsIntel => {
            assert(template_chars(p) =~= prefix_chars(p) + "{version}"@ + "-"@ + "{number}"@
                + ext_chars(p));
        },
        PlatformArch::MacOsArm64 => {
            assert(template_chars(p) =~= prefix_chars(p) + "{version}"@ + "-"@ + "{number}"@
                + ext_chars(p));
        },
    }
}

/// Builds candidate installer URLs.
pub struct UrlGenerator;

impl UrlGenerator {
    /// The candidate URL of a target, a version string and a build number.
    /// Pure and total: equal inputs give the equal string.
    pub fn generate_url(platform: PlatformArch, version: &str, number: u32) -> (r: String)
        ensures
            r@ == url_chars(platform, version@, number),
    {
        let mut s = String::from_str("https://upgrade.scdn.co/upgrade/client/");
        s.append(platform.prefix_str());
        s.append(version);
        s.append("-");
        let digits = u32_to_string(number);
        s.append(digits.as_str());
        s.append(platform.ext_str());
        proof {
            assert(s@ =~= url_chars(platform, version@, number));
        }
        s
    }
}

// ---------------------------------------------------------------------------
// Reading the build number back out
// ---------------------------------------------------------------------------

/// The length of the longest all-digit suffix of `s`.
pub open spec fn digit_suffix_len(s: Seq<char>) -> nat
    decreases s.len(),
{
    if s.len() == 0 || !is_digit_char(s.last()) {
        0
    } else {
        1 + digit_suffix_len(s.drop_last())
    }
}

pub proof fn lemma_digit_suffix_le(s: Seq<char>)
    ensures
        digit_suffix_len(s) <= s.len(),
    decreases s.len(),
{
    if s.len() > 0 && is_digit_char(s.last()) {
        lemma_digit_suffix_le(s.drop_last());
    }
}

/// A digit run appended behind a non-digit is exactly the digit suffix.
pub proof fn lemma_digit_suffix_of_concat(a: Seq<char>, d: Seq<char>)
    requires
        a.len() > 0,
        !is_digit_char(a.last()),
        all_digits(d),
    ensures
        digit_suffix_len(a + d) == d.len(),
    decreases d.len(),
{
    if d.len() == 0 {
        assert(a + d =~= a);
    } else {
        assert((a + d).last() == d.last());
        assert(is_digit_char(d.last()));
        assert((a + d).drop_last() =~= a + d.drop_last());
        assert(all_digits(d.drop_last()));
        lemma_digit_suffix_of_concat(a, d.drop_last());
    }
}

/// The build number embedded in a candidate URL: the value of the digit run
/// between the final `-` and the `.exe` or `.tbz` extension, when the URL
/// ends in that shape.
pub open spec fn extract_spec(s: Seq<char>) -> Option<nat> {
    if s.len() >= 4 && (s.skip(s.len() - 4) == ".exe"@ || s.skip(s.len() - 4) == ".tbz"@) {
        let b = s.take(s.len() - 4);
        let k = digit_suffix_len(b);
        if k >= 1 && b.len() >= k + 1 && b[b.len() - k - 1] == '-' {
            Some(digits_value(b.skip(b.len() - k)))
        } else {
            None
        }
    } else {
        None
    }
}

/// Reads the trailing build number out of a candidate URL. Returns the
/// number exactly when the URL ends in `-<digits>.exe` or `-<digits>.tbz`
/// and the digits fit an unsigned 32-bit integer.
pub fn extract_build_number(url: &str) -> (r: Option<u32>)
    ensures
        match extract_spec(url@) {
            Some(n) => r == if n < 0x1_0000_0000 {
                Some(n as u32)
            } else {
                None::<u32>
            },
            None => r is None,
        },
{
    proof {
        reveal_strlit(".exe");
        reveal_strlit(".tbz");
    }
    let len = url.unicode_len();
    if len < 4 {
        return None;
    }
    let c0 = url.get_char(len - 4);
    let c1 = url.get_char(len - 3);
    let c2 = url.get_char(len - 2);
    let c3 = url.get_char(len - 1);
    let is_exe = c0 == '.' && c1 == 'e' && c2 == 'x' && c3 == 'e';
    let is_tbz = c0 == '.' && c1 == 't' && c2 == 'b' && c3 == 'z';
    if !is_exe && !is_tbz {
        proof {
            assert(url@.skip(len - 4)[0] == url@[len - 4]);
            assert(url@.skip(len - 4)[1] == url@[len - 3]);
            assert(url@.skip(len - 4)[2] == url@[len - 2]);
            assert(url@.skip(len - 4)[3] == url@[len - 1]);
            if url@.skip(len - 4) == ".exe"@ {
                assert(url@[len - 4] == '.' && url@[len - 3] == 'e' && url@[len - 2] == 'x'
                    && url@[len - 1] == 'e');
            }
            if url@.skip(len - 4) == ".tbz"@ {
                assert(url@[len - 4] == '.' && url@[len - 3] == 't' && url@[len - 2] == 'b'
                    && url@[len - 1] == 'z');
            }
        }
        return None;
    }
    proof {
        if is_exe {
            assert(url@.skip(len - 4) =~= ".exe"@);
        } else {
            assert(url@.skip(len - 4) =~= ".tbz"@);
        }
    }
    let body_len = len - 4;
    let ghost b = url@.take(len - 4);
    // walk back over the digit run
    let mut j: usize = body_len;
    let mut stopped = false;
    while !stopped && j > 0
        invariant
            len == url@.len(),
            4 <= len,
            body_len == len - 4,
            b == url@.take(len - 4),
            0 <= j <= body_len,
            forall|t: int| j <= t < body_len ==> is_digit_char(#[trigger] b[t]),
            stopped ==> j >= 1 && !is_digit_char(b[j - 1]),
        decreases 2 * j + (if stopped { 0int } else { 1int }),
    {
        let c = url.get_char(j - 1);
        let cu = c as u32;
        proof {
            assert(b[j - 1] == url@[j - 1]);
        }
        if cu < 48 || cu > 57 {
            stopped = true;
        } else {
            j -= 1;
        }
    }
    proof {
        // at this point either b[j-1] is not a digit, or j == 0
        assert(b.len() == body_len);
        assert(stopped || j == 0);
    }
    let k = body_len - j;
    if k == 0 {
        proof {
            if body_len > 0 {
                assert(stopped);
                assert(b.last() == b[j - 1]);
            }
            lemma_digit_suffix_nonzero_head(b);
        }
        return None;
    }
    if j == 0 {
        proof {
            lemma_digit_suffix_all(b);
        }
        return None;
    }
    let before = url.get_char(j - 1);
    proof {
        assert(b[j - 1] == url@[j - 1]);
        assert(stopped);
        lemma_digit_suffix_exact(b, j as int);
    }
    if before != '-' {
        return None;
    }
    let digits = url.substring_char(j, body_len);
    proof {
        assert(digits@ =~= b.skip(j as int));
    }
    parse_digit_run(digits)
}

/// When the body ends in a non-digit, its digit suffix is empty.
proof fn lemma_digit_suffix_nonzero_head(b: Seq<char>)
    ensures
        b.len() == 0 || !is_digit_char(b.last()) ==> digit_suffix_len(b) == 0,
{
}

/// When every character of `b` is a digit, the digit suffix is all of `b`.
proof fn lemma_digit_suffix_all(b: Seq<char>)
    requires
        all_digits(b),
    ensures
        digit_suffix_len(b) == b.len(),
    decreases b.len(),
{
    if b.len() > 0 {
        assert(is_digit_char(b.last()));
        assert(all_digits(b.drop_last()));
        lemma_digit_suffix_all(b.drop_last());
    }
}

/// When `b[j..]` is all digits and `b[j-1]` is not a digit, the digit
/// suffix has length `b.len() - j`.
proof fn lemma_digit_suffix_exact(b: Seq<char>, j: int)
    requires
        1 <= j <= b.len(),
        forall|t: int| j <= t < b.len() ==> is_digit_char(#[trigger] b[t]),
        !is_digit_char(b[j - 1]),
    ensures
        digit_suffix_len(b) == b.len() - j,
{
    let a = b.take(j);
    let d = b.skip(j);
    assert(b =~= a + d);
    assert(a.last() == b[j - 1]);
    assert forall|t: int| 0 <= t < d.len() implies is_digit_char(#[trigger] d[t]) by {
        assert(d[t] == b[t + j]);
    }
    lemma_digit_suffix_of_concat(a, d);
}

/// Parses a known all-digit run, yielding its value when it fits.
fn parse_digit_run(s: &str) -> (r: Option<u32>)
    requires
        s@.len() >= 1,
        all_digits(s@),
    ensures
        r == if digits_value(s@) < 0x1_0000_0000 {
            Some(digits_value(s@) as u32)
        } else {
            None::<u32>
        },
{
    let r = parse_u32(s);
    proof {
        assert(parse_u32_spec(s@) == r);
    }
    r
}

// ---------------------------------------------------------------------------
// The round trip
// ---------------------------------------------------------------------------

/// Round trip: reading the trailing build number back out of a generated
/// candidate URL yields exactly the build number it was generated from,
/// whatever the target and the version string.
pub proof fn lemma_url_round_trip(p: PlatformArch, v: Seq<char>, number: u32)
    ensures
        extract_spec(url_chars(p, v, number)) == Some(number as nat),
{
    reveal_strlit(".exe");
    reveal_strlit(".tbz");
    reveal_strlit("-");
    let s = url_chars(p, v, number);
    let d = decimal_chars(number as nat);
    lemma_decimal_all_digits(number as nat);
    lemma_decimal_round_trip(number as nat);
    let head = base_url_chars() + prefix_chars(p) + v + "-"@;
    assert(s =~= head + d + ext_chars(p));
    assert(ext_chars(p).len() == 4) by {
        match p {
            PlatformArch::WinX86 => assert(".exe"@.len() == 4),
            PlatformArch::WinX64 => assert(".exe"@.len() == 4),
            PlatformArch::WinArm64 => assert(".exe"@.len() == 4),
            PlatformArch::MacOsIntel => assert(".tbz"@.len() == 4),
            PlatformArch::MacOsArm64 => assert(".tbz"@.len() == 4),
        }
    }
    assert(s.skip(s.len() - 4) =~= ext_chars(p));
    assert(s.skip(s.len() - 4) == ".exe"@ || s.skip(s.len() - 4) == ".tbz"@);
    let b = s.take(s.len() - 4);
    assert(b =~= head + d);
    assert(head.last() == '-') by {
        assert("-"@.len() == 1);
        assert("-"@[0] == '-');
    }
    assert(!is_digit_char('-'));
    lemma_digit_suffix_of_concat(head, d);
    assert(digit_suffix_len(b) == d.len());
    let k = digit_suffix_len(b);
    assert(k >= 1);
    assert(b.len() >= k + 1);
    assert(b[b.len() - k - 1] == head.last());
    assert(b.skip(b.len() - k) =~= d);
    assert(extract_spec(s) == Some(digits_value(d)));
}

} // verus!
