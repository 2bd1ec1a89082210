use vstd::prelude::*;

verus! {

// ---------------------------------------------------------------------------
// Decimal digits
// ---------------------------------------------------------------------------

/// Whether `c` is an ASCII decimal digit.
pub open spec fn is_digit_char(c: char) -> bool {
    ('0' as int) <= (c as int) <= ('9' as int)
}

/// The numeric value of a digit character.
pub open spec fn digit_val(c: char) -> nat {
    ((c as int) - ('0' as int)) as nat
}

/// Whether every character of `s` is an ASCII decimal digit.
pub open spec fn all_digits(s: Seq<char>) -> bool {
    forall|i: int| 0 <= i < s.len() ==> is_digit_char(#[trigger] s[i])
}

/// The value of a digit string, most significant digit first.
pub open spec fn digits_value(s: Seq<char>) -> nat
    decreases s.len(),
{
    if s.len() == 0 {
        0
    } else {
        digits_value(s.drop_last()) * 10 + digit_val(s.last())
    }
}

/// The digit character of a value below ten.
pub open spec fn digit_char(d: nat) -> char {
    if d == 0 { '0' }
    else if d == 1 { '1' }
    else if d == 2 { '2' }
    else if d == 3 { '3' }
    else if d == 4 { '4' }
    else if d == 5 { '5' }
    else if d == 6 { '6' }
    else if d == 7 { '7' }
    else if d == 8 { '8' }
    else { '9' }
}

/// The decimal rendering of `n`, without sign or leading zeros.
pub open spec fn decimal_chars(n: nat) -> Seq<char>
    decreases n,
{
    if n < 10 {
        seq![digit_char(n)]
    } else {
        decimal_chars(n / 10).push(digit_char(n % 10))
    }
}

pub proof fn lemma_digit_char_val(d: nat)
    requires
        d < 10,
    ensures
        is_digit_char(digit_char(d)),
        digit_val(digit_char(d)) == d,
{
}

/// Every character of a decimal rendering is a digit.
pub proof fn lemma_decimal_all_digits(n: nat)
    ensures
        decimal_chars(n).len() >= 1,
        all_digits(decimal_chars(n)),
    decreases n,
{
    if n < 10 {
        lemma_digit_char_val(n);
    } else {
        lemma_decimal_all_digits(n / 10);
        lemma_digit_char_val(n % 10);
        assert forall|i: int| 0 <= i < decimal_chars(n).len() implies is_digit_char(
            #[trigger] decimal_chars(n)[i],
        ) by {
            if i < decimal_chars(n / 10).len() {
                assert(decimal_chars(n)[i] == decimal_chars(n / 10)[i]);
            }
        }
    }
}

/// Reading the decimal rendering of `n` back as a digit string gives `n`.
pub proof fn lemma_decimal_round_trip(n: nat)
    ensures
        digits_value(decimal_chars(n)) == n,
    decreases n,
{
    if n < 10 {
        lemma_digit_char_val(n);
        let s = decimal_chars(n);
        assert(s == seq![digit_char(n)]);
        assert(s.drop_last() =~= Seq::<char>::empty());
        assert(digits_value(s.drop_last()) == 0);
        assert(s.last() == digit_char(n));
    } else {
        lemma_decimal_round_trip(n / 10);
        lemma_digit_char_val(n % 10);
        let s = decimal_chars(n);
        assert(s == decimal_chars(n / 10).push(digit_char(n % 10)));
        assert(s.drop_last() =~= decimal_chars(n / 10));
        assert(s.last() == digit_char(n % 10));
        assert(digits_value(s) == (n / 10) * 10 + n % 10);
        assert((n / 10) * 10 + n % 10 == n) by {
            vstd::arithmetic::div_mod::lemma_fundamental_div_mod(n as int, 10);
        }
    }
}

/// Extending a digit prefix by one character multiplies its value by ten.
pub proof fn lemma_digits_value_extend(s: Seq<char>, j: int)
    requires
        0 <= j < s.len(),
    ensures
        digits_value(s.take(j + 1)) == digits_value(s.take(j)) * 10 + digit_val(s[j]),
{
    assert(s.take(j + 1).drop_last() =~= s.take(j));
    assert(s.take(j + 1).last() == s[j]);
}

/// The value of a prefix never exceeds the value of the whole digit string.
pub proof fn lemma_digits_prefix_le(s: Seq<char>, j: int)
    requires
        0 <= j <= s.len(),
    ensures
        digits_value(s.take(j)) <= digits_value(s),
    decreases s.len() - j,
{
    if j == s.len() {
        assert(s.take(j) =~= s);
    } else {
        lemma_digits_value_extend(s, j);
        lemma_digits_prefix_le(s, j + 1);
    }
}

/// A digit string below ten characters of value; the exec rendering of `n`.
pub fn u32_to_string(n: u32) -> (r: String)
    ensures
        r@ == decimal_chars(n as nat),
    decreases n,
{
    if n < 10 {
        let r = digit_str(n);
        String::from_str(r)
    } else {
        let mut s = u32_to_string(n / 10);
        s.append(digit_str(n % 10));
        proof {
            assert(s@ =~= decimal_chars(n as nat));
        }
        s
    }
}

/// The one-character string of a digit value.
fn digit_str(d: u32) -> (r: &'static str)
    requires
        d < 10,
    ensures
        r@ =~= seq![digit_char(d as nat)],
{
    proof {
        reveal_strlit("0");
        reveal_strlit("1");
        reveal_strlit("2");
        reveal_strlit("3");
        reveal_strlit("4");
        reveal_strlit("5");
        reveal_strlit("6");
        reveal_strlit("7");
        reveal_strlit("8");
        reveal_strlit("9");
    }
    match d {
        0 => "0",
        1 => "1",
        2 => "2",
        3 => "3",
        4 => "4",
        5 => "5",
        6 => "6",
        7 => "7",
        8 => "8",
        _ => "9",
    }
}

/// What `parse_u32` returns: the value of a non-empty all-digit string that
/// fits an unsigned 32-bit integer, and nothing else.
pub open spec fn parse_u32_spec(s: Seq<char>) -> Option<u32> {
    if s.len() > 0 && all_digits(s) && digits_value(s) < 0x1_0000_0000 {
        Some(digits_value(s) as u32)
    } else {
        None
    }
}

/// Parses a non-negative decimal integer; rejects anything else, including
/// values that do not fit.
pub fn parse_u32(s: &str) -> (r: Option<u32>)
    ensures
        r == parse_u32_spec(s@),
{
    let len = s.unicode_len();
    if len == 0 {
        return None;
    }
    let mut acc: u32 = 0;
    let mut i: usize = 0;
    while i < len
        invariant
            len == s@.len(),
            0 <= i <= len,
            all_digits(s@.take(i as int)),
            acc as nat == digits_value(s@.take(i as int)),
        decreases len - i,
    {
        let c = s.get_char(i);
        let cu = c as u32;
        if cu < 48 || cu > 57 {
            proof {
                assert(!is_digit_char(s@[i as int]));
            }
            return None;
        }
        let d = cu - 48;
        if acc > (u32::MAX - d) / 10 {
            proof {
                vstd::arithmetic::div_mod::lemma_fundamental_div_mod((u32::MAX - d) as int, 10);
                assert(acc as nat * 10 + d as nat >= 0x1_0000_0000);
                lemma_digits_value_extend(s@, i as int);
                assert(digit_val(s@[i as int]) == d as nat);
                lemma_digits_prefix_le(s@, i + 1);
            }
            return None;
        }
        proof {
            lemma_digits_value_extend(s@, i as int);
            assert(digit_val(s@[i as int]) == d as nat);
        }
        acc = acc * 10 + d;
        i += 1;
    }
    proof {
        assert(s@.take(len as int) =~= s@);
    }
    Some(acc)
}

// ---------------------------------------------------------------------------
// Splitting on a separator character
// ---------------------------------------------------------------------------

/// The segments of `s` between occurrences of `sep`; always non-empty, and
/// holds empty segments for leading, trailing or doubled separators.
pub open spec fn split_char(s: Seq<char>, sep: char) -> Seq<Seq<char>>
    decreases s.len(),
{
    if s.len() == 0 {
        seq![Seq::<char>::empty()]
    } else if s[0] == sep {
        seq![Seq::<char>::empty()] + split_char(s.skip(1), sep)
    } else {
        let rest = split_char(s.skip(1), sep);
        seq![seq![s[0]] + rest[0]] + rest.skip(1)
    }
}

pub proof fn lemma_split_nonempty(s: Seq<char>, sep: char)
    ensures
        split_char(s, sep).len() >= 1,
    decreases s.len(),
{
    if s.len() > 0 {
        lemma_split_nonempty(s.skip(1), sep);
    }
}

/// A string without the separator is one single segment.
pub proof fn lemma_split_no_sep(s: Seq<char>, sep: char)
    requires
        forall|i: int| 0 <= i < s.len() ==> s[i] != sep,
    ensures
        split_char(s, sep) =~= seq![s],
    decreases s.len(),
{
    if s.len() > 0 {
        assert(s[0] != sep);
        assert forall|i: int| 0 <= i < s.skip(1).len() implies s.skip(1)[i] != sep by {
            assert(s.skip(1)[i] == s[i + 1]);
        }
        lemma_split_no_sep(s.skip(1), sep);
        let rest = split_char(s.skip(1), sep);
        assert(rest =~= seq![s.skip(1)]);
        assert(rest.skip(1) =~= Seq::<Seq<char>>::empty());
        assert(seq![s[0]] + rest[0] =~= s);
        assert(split_char(s, sep) == seq![seq![s[0]] + rest[0]] + rest.skip(1));
        assert(split_char(s, sep) =~~= seq![s]);
    } else {
        assert(s =~= Seq::<char>::empty());
        assert(split_char(s, sep) =~~= seq![s]);
    }
}

/// Splitting at the first separator occurrence: the head segment is what
/// stands before it, and the rest splits recursively.
pub proof fn lemma_split_at_first(s: Seq<char>, sep: char, k: int)
    requires
        0 <= k < s.len(),
        s[k] == sep,
        forall|i: int| 0 <= i < k ==> s[i] != sep,
    ensures
        split_char(s, sep) =~= seq![s.take(k)] + split_char(s.skip(k + 1), sep),
    decreases k,
{
    lemma_split_nonempty(s.skip(k + 1), sep);
    if k == 0 {
        assert(s.take(0) =~= Seq::<char>::empty());
    } else {
        assert(s.skip(1)[k - 1] == s[k]);
        assert forall|i: int| 0 <= i < k - 1 implies s.skip(1)[i] != sep by {
            assert(s.skip(1)[i] == s[i + 1]);
        }
        lemma_split_at_first(s.skip(1), sep, k - 1);
        assert(s.skip(1).take(k - 1) =~= s.take(k).skip(1));
        assert(s.skip(1).skip(k) =~= s.skip(k + 1));
        assert(seq![s[0]] + s.take(k).skip(1) =~= s.take(k));
    }
}

/// The views of a sequence of owned strings.
pub open spec fn str_views(v: Seq<String>) -> Seq<Seq<char>> {
    v.map_values(|x: String| x@)
}

/// Splits `s` on every occurrence of `sep`, keeping empty segments.
pub fn split_on(s: &str, sep: char) -> (r: Vec<String>)
    ensures
        str_views(r@) =~= split_char(s@, sep),
{
    let len = s.unicode_len();
    let mut parts: Vec<String> = Vec::new();
    let mut seg_start: usize = 0;
    let mut i: usize = 0;
    proof {
        assert(s@.skip(0) =~= s@);
        assert(str_views(parts@) =~= Seq::<Seq<char>>::empty());
        assert(str_views(parts@) + split_char(s@, sep) =~= split_char(s@, sep));
    }
    while i < len
        invariant
            len == s@.len(),
            0 <= seg_start <= i <= len,
            forall|j: int| seg_start <= j < i ==> s@[j] != sep,
            split_char(s@, sep) =~= str_views(parts@) + split_char(s@.skip(seg_start as int), sep),
        decreases len - i,
    {
        let c = s.get_char(i);
        if c == sep {
            let seg = s.substring_char(seg_start, i);
            proof {
                assert(s@.skip(seg_start as int)[(i - seg_start) as int] == s@[i as int]);
                assert forall|j: int| 0 <= j < i - seg_start implies s@.skip(seg_start as int)[j]
                    != sep by {
                    assert(s@.skip(seg_start as int)[j] == s@[j + seg_start]);
                }
                lemma_split_at_first(s@.skip(seg_start as int), sep, (i - seg_start) as int);
                assert(s@.skip(seg_start as int).take((i - seg_start) as int) =~= s@.subrange(
                    seg_start as int,
                    i as int,
                ));
                assert(s@.skip(seg_start as int).skip((i - seg_start + 1) as int) =~= s@.skip(
                    i + 1,
                ));
            }
            let owned = String::from_str(seg);
            parts.push(owned);
            proof {
                assert(str_views(parts@) =~= str_views(parts@.drop_last()) + seq![
                    s@.subrange(seg_start as int, i as int),
                ]);
            }
            seg_start = i + 1;
        }
        i += 1;
    }
    let seg = s.substring_char(seg_start, len);
    proof {
        assert forall|j: int| 0 <= j < s@.skip(seg_start as int).len() implies s@.skip(
            seg_start as int,
        )[j] != sep by {
            assert(s@.skip(seg_start as int)[j] == s@[j + seg_start]);
        }
        lemma_split_no_sep(s@.skip(seg_start as int), sep);
        assert(s@.skip(seg_start as int) =~= s@.subrange(seg_start as int, len as int));
    }
    let owned = String::from_str(seg);
    parts.push(owned);
    proof {
        assert(str_views(parts@) =~= str_views(parts@.drop_last()) + seq![
            s@.subrange(seg_start as int, len as int),
        ]);
    }
    parts
}

/// Whether two strings hold the same characters.
pub fn str_eq(a: &str, b: &str) -> (r: bool)
    ensures
        r == (a@ == b@),
{
    let la = a.unicode_len();
    let lb = b.unicode_len();
    if la != lb {
        proof {
            assert(a@.len() != b@.len());
        }
        return false;
    }
    let mut i: usize = 0;
    while i < la
        invariant
            la == a@.len(),
            la == b@.len(),
            0 <= i <= la,
            forall|j: int| 0 <= j < i ==> a@[j] == b@[j],
        decreases la - i,
    {
        if a.get_char(i) != b.get_char(i) {
            return false;
        }
        i += 1;
    }
    proof {
        assert(a@ =~= b@);
    }
    true
}

// ---------------------------------------------------------------------------
// Joining with a separator string
// ---------------------------------------------------------------------------

/// The segments of `parts` joined with `sep` between neighbours.
pub open spec fn join_with_spec(parts: Seq<Seq<char>>, sep: Seq<char>) -> Seq<char>
    decreases parts.len(),
{
    if parts.len() == 0 {
        Seq::<char>::empty()
    } else if parts.len() == 1 {
        parts[0]
    } else {
        parts[0] + sep + join_with_spec(parts.skip(1), sep)
    }
}

/// Joining one more segment appends a separator and the segment.
pub proof fn lemma_join_push(parts: Seq<Seq<char>>, sep: Seq<char>, p: Seq<char>)
    ensures
        parts.len() == 0 ==> join_with_spec(parts.push(p), sep) == p,
        parts.len() > 0 ==> join_with_spec(parts.push(p), sep) =~= join_with_spec(parts, sep) + sep
            + p,
    decreases parts.len(),
{
    if parts.len() == 0 {
        assert(parts.push(p)[0] == p);
    } else if parts.len() == 1 {
        assert(parts.push(p)[0] == parts[0]);
        assert(parts.push(p).skip(1) =~= seq![p]);
        assert(join_with_spec(seq![p], sep) == p);
    } else {
        lemma_join_push(parts.skip(1), sep, p);
        assert(parts.push(p).skip(1) =~= parts.skip(1).push(p));
        assert(parts.push(p)[0] == parts[0]);
        assert(join_with_spec(parts.push(p), sep) == parts[0] + sep + join_with_spec(
            parts.skip(1).push(p),
            sep,
        ));
    }
}

/// Joins the first `upto` items with `sep` between neighbours.
pub fn join_upto(items: &Vec<String>, upto: usize, sep: &str) -> (r: String)
    requires
        upto <= items@.len(),
    ensures
        r@ == join_with_spec(str_views(items@.take(upto as int)), sep@),
{
    let mut out = String::new();
    let mut i: usize = 0;
    while i < upto
        invariant
            upto <= items@.len(),
            0 <= i <= upto,
            out@ == join_with_spec(str_views(items@.take(i as int)), sep@),
        decreases upto - i,
    {
        if i > 0 {
            out.append(sep);
        }
        out.append(items[i].as_str());
        proof {
            let prev = str_views(items@.take(i as int));
            let next = str_views(items@.take(i + 1));
            assert(next =~= prev.push(items@[i as int]@));
            lemma_join_push(prev, sep@, items@[i as int]@);
        }
        i += 1;
    }
    out
}

/// Joins all items with `sep` between neighbours.
pub fn join_all(items: &Vec<String>, sep: &str) -> (r: String)
    ensures
        r@ == join_with_spec(str_views(items@), sep@),
{
    let n = items.len();
    let r = join_upto(items, n, sep);
    proof {
        assert(items@.take(n as int) =~= items@);
    }
    r
}

} // verus!
