use vstd::prelude::*;

use crate::platform::PlatformArch;
use crate::text::{
    all_digits, is_digit_char, join_upto, join_with_spec, parse_u32, parse_u32_spec, split_char,
    split_on, str_views,
};

verus! {

// ---------------------------------------------------------------------------
// Base version
// ---------------------------------------------------------------------------

/// The first three dot-separated components of `v`, joined with dots; `v`
/// itself when it has fewer than three components.
pub open spec fn base_version_chars(v: Seq<char>) -> Seq<char> {
    let parts = split_char(v, '.');
    if parts.len() >= 3 {
        join_with_spec(parts.take(3), "."@)
    } else {
        v
    }
}

/// Keeps only the `major.minor.patch` head of a version string.
pub fn extract_base_version(version: &str) -> (r: String)
    ensures
        r@ == base_version_chars(version@),
{
    let parts = split_on(version, '.');
    if parts.len() >= 3 {
        let r = join_upto(&parts, 3, ".");
        proof {
            assert(str_views(parts@.take(3)) =~= str_views(parts@).take(3));
        }
        r
    } else {
        String::from_str(version)
    }
}

// ---------------------------------------------------------------------------
// Legacy 32-bit Windows policy
// ---------------------------------------------------------------------------

/// The `(major, minor, patch)` triple of a version string: its first three
/// dot-separated components, when all three parse as decimal integers.
pub open spec fn version_triple(v: Seq<char>) -> Option<(u32, u32, u32)> {
    let parts = split_char(v, '.');
    if parts.len() >= 3 {
        if parse_u32_spec(parts[0]) is Some && parse_u32_spec(parts[1]) is Some && parse_u32_spec(
            parts[2],
        ) is Some {
            Some(
                (
                    parse_u32_spec(parts[0]).unwrap(),
                    parse_u32_spec(parts[1]).unwrap(),
                    parse_u32_spec(parts[2]).unwrap(),
                ),
            )
        } else {
            None
        }
    } else {
        None
    }
}

/// Whether the legacy 32-bit Windows build is still offered for `v`: its
/// `(major, minor, patch)` triple is at most `(1, 2, 53)`. A version whose
/// triple cannot be read is treated as offered (fail open).
pub open spec fn win_x86_offered(v: Seq<char>) -> bool {
    match version_triple(v) {
        Some(t) => t.0 < 1 || (t.0 == 1 && (t.1 < 2 || (t.1 == 2 && t.2 <= 53))),
        None => true,
    }
}

/// Decides the legacy 32-bit Windows cutoff for a version string.
pub fn should_use_win_x86(version: &str) -> (r: bool)
    ensures
        r == win_x86_offered(version@),
{
    let parts = split_on(version, '.');
    if parts.len() >= 3 {
        let a = parse_u32(parts[0].as_str());
        let b = parse_u32(parts[1].as_str());
        let c = parse_u32(parts[2].as_str());
        proof {
            assert(str_views(parts@)[0] == parts@[0]@);
            assert(str_views(parts@)[1] == parts@[1]@);
            assert(str_views(parts@)[2] == parts@[2]@);
        }
        match (a, b, c) {
            (Some(major), Some(minor), Some(patch)) => {
                major < 1 || (major == 1 && (minor < 2 || (minor == 2 && patch <= 53)))
            },
            _ => true,
        }
    } else {
        true
    }
}

/// Whether `arch` is offered for `version`: every target but legacy 32-bit
/// Windows always is; that one only up to the cutoff.
pub open spec fn applies_spec(arch: PlatformArch, v: Seq<char>) -> bool {
    arch == PlatformArch::WinX86 ==> win_x86_offered(v)
}

/// Whether a target architecture is still offered for a version.
pub fn applies(arch: PlatformArch, version: &str) -> (r: bool)
    ensures
        r == applies_spec(arch, version@),
{
    match arch {
        PlatformArch::WinX86 => should_use_win_x86(version),
        _ => true,
    }
}

// ---------------------------------------------------------------------------
// Full version strings
// ---------------------------------------------------------------------------

/// Whether `c` is a lower-case hexadecimal digit.
pub open spec fn is_hex_lower(c: char) -> bool {
    is_digit_char(c) || ('a' as int) <= (c as int) <= ('f' as int)
}

/// A full version string: four non-empty decimal components, then a commit
/// component of `g` followed by exactly eight lower-case hex digits.
pub open spec fn valid_version_chars(v: Seq<char>) -> bool {
    let parts = split_char(v, '.');
    &&& parts.len() == 5
    &&& forall|k: int| 0 <= k < 4 ==> (#[trigger] parts[k]).len() >= 1 && all_digits(parts[k])
    &&& parts[4].len() == 9
    &&& parts[4][0] == 'g'
    &&& forall|i: int| 1 <= i < 9 ==> is_hex_lower(#[trigger] parts[4][i])
}

/// Checks the shape of a full version string.
pub fn validate_version(version: &str) -> (r: bool)
    ensures
        r == valid_version_chars(version@),
{
    let parts = split_on(version, '.');
    if parts.len() != 5 {
        return false;
    }
    let mut k: usize = 0;
    while k < 4
        invariant
            parts@.len() == 5,
            str_views(parts@) =~= split_char(version@, '.'),
            0 <= k <= 4,
            forall|j: int|
                0 <= j < k ==> (#[trigger] str_views(parts@)[j]).len() >= 1 && all_digits(
                    str_views(parts@)[j],
                ),
        decreases 4 - k,
    {
        proof {
            assert(str_views(parts@)[k as int] == parts@[k as int]@);
        }
        if !is_all_digits(parts[k].as_str()) {
            return false;
        }
        k += 1;
    }
    let commit = parts[4].as_str();
    if commit.unicode_len() != 9 {
        return false;
    }
    if commit.get_char(0) != 'g' {
        return false;
    }
    let mut i: usize = 1;
    while i < 9
        invariant
            commit@ =~= split_char(version@, '.')[4],
            commit@.len() == 9,
            1 <= i <= 9,
            forall|j: int| 1 <= j < i ==> is_hex_lower(#[trigger] commit@[j]),
        decreases 9 - i,
    {
        let c = commit.get_char(i);
        let cu = c as u32;
        let hex = (48 <= cu && cu <= 57) || (97 <= cu && cu <= 102);
        if !hex {
            return false;
        }
        i += 1;
    }
    true
}

/// Whether `s` is non-empty and all decimal digits.
fn is_all_digits(s: &str) -> (r: bool)
    ensures
        r == (s@.len() >= 1 && all_digits(s@)),
{
    let len = s.unicode_len();
    if len == 0 {
        return false;
    }
    let mut i: usize = 0;
    while i < len
        invariant
            len == s@.len(),
            0 <= i <= len,
            forall|j: int| 0 <= j < i ==> is_digit_char(#[trigger] s@[j]),
        decreases len - i,
    {
        let c = s.get_char(i);
        let cu = c as u32;
        if cu < 48 || cu > 57 {
            return false;
        }
        i += 1;
    }
    true
}

/// Keeps the lines that are well-formed version strings.
pub fn filter_valid_versions(lines: &Vec<String>) -> (r: Vec<String>)
    ensures
        r@ == lines@.filter(|s: String| valid_version_chars(s@)),
{
    let mut out: Vec<String> = Vec::new();
    let mut i: usize = 0;
    proof {
        reveal(Seq::filter);
        assert(lines@.take(0) =~= Seq::<String>::empty());
        assert(out@ =~= lines@.take(0).filter(|s: String| valid_version_chars(s@)));
    }
    while i < lines.len()
        invariant
            0 <= i <= lines@.len(),
            out@ == lines@.take(i as int).filter(|s: String| valid_version_chars(s@)),
        decreases lines@.len() - i,
    {
        proof {
            reveal(Seq::filter);
            assert(lines@.take(i + 1).drop_last() =~= lines@.take(i as int));
            assert(lines@.take(i + 1).last() == lines@[i as int]);
        }
        if validate_version(lines[i].as_str()) {
            out.push(lines[i].clone());
        }
        i += 1;
    }
    proof {
        assert(lines@.take(lines@.len() as int) =~= lines@);
    }
    out
}

/// Whether `version` already stands among the known full version strings.
/// When it does not, the caller may report it onward.
pub fn version_is_known(known: &Vec<String>, version: &str) -> (r: bool)
    ensures
        r == exists|i: int| 0 <= i < known@.len() && (#[trigger] known@[i])@ == version@,
{
    let mut i: usize = 0;
    while i < known.len()
        invariant
            0 <= i <= known@.len(),
            forall|j: int| 0 <= j < i ==> (#[trigger] known@[j])@ != version@,
        decreases known@.len() - i,
    {
        if crate::text::str_eq(known[i].as_str(), version) {
            return true;
        }
        i += 1;
    }
    false
}

// ---------------------------------------------------------------------------
// Short version
// ---------------------------------------------------------------------------

/// The position of the first `.g` in `s`, or `-1` when there is none.
pub open spec fn first_dot_g(s: Seq<char>) -> int
    decreases s.len(),
{
    if s.len() < 2 {
        -1
    } else if s[0] == '.' && s[1] == 'g' {
        0
    } else if first_dot_g(s.skip(1)) < 0 {
        -1
    } else {
        first_dot_g(s.skip(1)) + 1
    }
}

pub proof fn lemma_first_dot_g(s: Seq<char>)
    ensures
        first_dot_g(s) >= 0 ==> {
            let i = first_dot_g(s);
            &&& i + 1 < s.len()
            &&& s[i] == '.'
            &&& s[i + 1] == 'g'
            &&& forall|j: int| 0 <= j < i ==> !(s[j] == '.' && #[trigger] s[j + 1] == 'g')
        },
        first_dot_g(s) < 0 ==> forall|j: int|
            0 <= j < s.len() - 1 ==> !(s[j] == '.' && #[trigger] s[j + 1] == 'g'),
    decreases s.len(),
{
    if s.len() < 2 {
    } else if s[0] == '.' && s[1] == 'g' {
    } else {
        lemma_first_dot_g(s.skip(1));
        if first_dot_g(s.skip(1)) >= 0 {
            let i = first_dot_g(s.skip(1));
            assert(s[i + 1] == s.skip(1)[i]);
            assert(s[i + 2] == s.skip(1)[i + 1]);
            assert forall|j: int| 0 <= j < i + 1 implies !(s[j] == '.' && #[trigger] s[j + 1]
                == 'g') by {
                if j > 0 {
                    assert(s.skip(1)[j - 1] == s[j]);
                    assert(s.skip(1)[j] == s[j + 1]);
                }
            }
        } else {
            assert forall|j: int| 0 <= j < s.len() - 1 implies !(s[j] == '.' && #[trigger] s[j + 1]
                == 'g') by {
                if j > 0 {
                    assert(s.skip(1)[j - 1] == s[j]);
                    assert(s.skip(1)[j] == s[j + 1]);
                }
            }
        }
    }
}

/// The display form of a version: what stands before the first `.g`, or,
/// when there is none, at most the first four dot-separated components.
pub open spec fn short_version_chars(v: Seq<char>) -> Seq<char> {
    let i = first_dot_g(v);
    if i >= 0 {
        v.take(i)
    } else {
        let parts = split_char(v, '.');
        if parts.len() <= 4 {
            join_with_spec(parts, "."@)
        } else {
            join_with_spec(parts.take(4), "."@)
        }
    }
}

/// Shortens a version string for display.
pub fn short_version(version: &str) -> (r: String)
    ensures
        r@ == short_version_chars(version@),
{
    let len = version.unicode_len();
    let mut i: usize = 0;
    proof {
        lemma_first_dot_g(version@);
    }
    if len >= 2 {
        while i < len - 1
            invariant
                len == version@.len(),
                2 <= len,
                0 <= i <= len - 1,
                forall|j: int|
                    0 <= j < i ==> !(version@[j] == '.' && #[trigger] version@[j + 1] == 'g'),
            decreases len - i,
        {
            let c0 = version.get_char(i);
            let c1 = version.get_char(i + 1);
            if c0 == '.' && c1 == 'g' {
                proof {
                    lemma_first_dot_g(version@);
                    let f = first_dot_g(version@);
                    if f != i {
                        if f < i as int {
                            assert(!(version@[f] == '.' && version@[f + 1] == 'g'));
                        }
                        assert(false);
                    }
                }
                let r = version.substring_char(0, i);
                let owned = String::from_str(r);
                proof {
                    assert(owned@ =~= version@.take(i as int));
                }
                return owned;
            }
            i += 1;
        }
    }
    proof {
        lemma_first_dot_g(version@);
        if first_dot_g(version@) >= 0 {
            let f = first_dot_g(version@);
            assert(!(version@[f] == '.' && version@[f + 1] == 'g'));
            assert(false);
        }
    }
    let parts = split_on(version, '.');
    if parts.len() <= 4 {
        let n = parts.len();
        let r = join_upto(&parts, n, ".");
        proof {
            assert(parts@.take(n as int) =~= parts@);
        }
        r
    } else {
        let r = join_upto(&parts, 4, ".");
        proof {
            assert(str_views(parts@.take(4)) =~= str_views(parts@).take(4));
        }
        r
    }
}

} // verus!
