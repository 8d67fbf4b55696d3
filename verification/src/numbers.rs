//! Numeric tokens: exact decimal parsing of optional counter fields and
//! decimal rendering, plus the trusted normalization of floating-point
//! tokens, whose value the library carries as its rendered text.

use vstd::prelude::*;
use vstd::string::*;

verus! {

// ---------------------------------------------------------------------------
// Parsing unsigned decimal numerals
// ---------------------------------------------------------------------------

pub open spec fn is_digit_char(c: char) -> bool {
    0x30 <= c as u32 && c as u32 <= 0x39
}

pub open spec fn digit_val(c: char) -> int {
    c as u32 - 0x30
}

/// The value of a sequence of decimal digits, most significant first.
pub open spec fn digits_val(s: Seq<char>) -> int
    decreases s.len(),
{
    if s.len() == 0 {
        0
    } else {
        digits_val(s.drop_last()) * 10 + digit_val(s.last())
    }
}

pub open spec fn all_digits(s: Seq<char>) -> bool {
    forall|i: int| 0 <= i < s.len() ==> is_digit_char(s[i])
}

/// An optional leading plus sign is accepted before the digits.
pub open spec fn strip_plus(s: Seq<char>) -> Seq<char> {
    if s.len() > 0 && s[0] == '+' {
        s.drop_first()
    } else {
        s
    }
}

/// The tokens that parse as a `u32`: an optional plus sign, then one or
/// more decimal digits, with a value that fits.
pub open spec fn is_u32_numeral(s: Seq<char>) -> bool {
    let d = strip_plus(s);
    d.len() > 0 && all_digits(d) && digits_val(d) <= u32::MAX
}

pub open spec fn u32_numeral_val(s: Seq<char>) -> int {
    digits_val(strip_plus(s))
}

proof fn lemma_digits_val_bounds(s: Seq<char>)
    requires
        all_digits(s),
    ensures
        0 <= digits_val(s),
    decreases s.len(),
{
    if s.len() > 0 {
        assert(all_digits(s.drop_last())) by {
            assert(forall|i: int|
                0 <= i < s.len() - 1 ==> s.drop_last()[i] == s[i] && is_digit_char(s[i]));
        }
        lemma_digits_val_bounds(s.drop_last());
    }
}

/// Appending digits never shrinks the value.
proof fn lemma_digits_val_prefix(s: Seq<char>, i: int)
    requires
        all_digits(s),
        0 <= i <= s.len(),
    ensures
        digits_val(s.take(i)) <= digits_val(s),
    decreases s.len() - i,
{
    if i < s.len() {
        assert(all_digits(s.take(i + 1))) by {
            assert(forall|k: int|
                0 <= k < i + 1 ==> s.take(i + 1)[k] == s[k] && is_digit_char(s[k]));
        }
        assert(s.take(i + 1).drop_last() =~= s.take(i));
        assert(s.take(i + 1).last() == s[i]);
        lemma_digits_val_bounds(s.take(i));
        assert(digits_val(s.take(i)) <= digits_val(s.take(i)) * 10 + digit_val(s[i]));
        lemma_digits_val_prefix(s, i + 1);
    } else {
        assert(s.take(i) =~= s);
    }
}

/// An optional counter field: present with its value exactly for the
/// numerals that fit, absent for a placeholder or any other token.
pub open spec fn spec_u32_field(s: Seq<char>) -> Option<u32> {
    if is_u32_numeral(s) {
        Some(u32_numeral_val(s) as u32)
    } else {
        None
    }
}

/// Parses a decimal `u32` token: `Some` exactly for the numerals that fit,
/// `None` for a placeholder or any other token, never an error.
pub fn parse_u32(s: &str) -> (r: Option<u32>)
    ensures
        r == spec_u32_field(s@),
{
    let n: usize = s.unicode_len();
    let start: usize = if n > 0 && s.get_char(0) == '+' {
        1
    } else {
        0
    };
    let ghost d = strip_plus(s@);
    proof {
        assert(d =~= s@.subrange(start as int, n as int));
    }
    if start == n {
        return None;
    }
    let mut acc: u32 = 0;
    let mut i: usize = start;
    loop
        invariant
            n == s@.len(),
            start <= i <= n,
            start < n,
            d == strip_plus(s@),
            d == s@.subrange(start as int, n as int),
            all_digits(d.take(i - start)),
            acc == digits_val(d.take(i - start)),
        ensures
            is_u32_numeral(s@),
            acc == u32_numeral_val(s@),
        decreases n - i,
    {
        if i >= n {
            proof {
                assert(d.take(i - start) =~= d);
            }
            break;
        }
        let c = s.get_char(i);
        let u = c as u32;
        if u < 0x30 || u > 0x39 {
            proof {
                assert(d[i - start] == s@[i as int]);
                assert(!is_digit_char(d[i - start]));
                assert(!all_digits(d));
            }
            return None;
        }
        let dv: u32 = u - 0x30;
        if acc > (u32::MAX - dv) / 10 {
            proof {
                assert(d.take(i - start + 1).drop_last() =~= d.take(i - start));
                assert(d.take(i - start + 1).last() == d[i - start]);
                assert(digits_val(d.take(i - start + 1)) > u32::MAX);
                if is_u32_numeral(s@) {
                    lemma_digits_val_prefix(d, i - start + 1);
                }
            }
            return None;
        }
        proof {
            assert(d.take(i - start + 1).drop_last() =~= d.take(i - start));
            assert(d.take(i - start + 1).last() == d[i - start]);
            assert(all_digits(d.take(i - start + 1))) by {
                assert(forall|k: int|
                    0 <= k < i - start + 1 ==> d.take(i - start + 1)[k] == d[k]);
            }
        }
        acc = acc * 10 + dv;
        i += 1;
    }
    Some(acc)
}

// ---------------------------------------------------------------------------
// Rendering unsigned decimals
// ---------------------------------------------------------------------------

pub open spec fn spec_digit_str(d: int) -> Seq<char> {
    if d == 0 {
        ("0")@
    } else if d == 1 {
        ("1")@
    } else if d == 2 {
        ("2")@
    } else if d == 3 {
        ("3")@
    } else if d == 4 {
        ("4")@
    } else if d == 5 {
        ("5")@
    } else if d == 6 {
        ("6")@
    } else if d == 7 {
        ("7")@
    } else if d == 8 {
        ("8")@
    } else {
        ("9")@
    }
}

/// The shortest decimal numeral of a non-negative value.
pub open spec fn spec_u32_str(n: int) -> Seq<char>
    decreases n,
{
    if n < 10 {
        spec_digit_str(n)
    } else {
        spec_u32_str(n / 10) + spec_digit_str(n % 10)
    }
}

fn digit_str(d: u32) -> (r: &'static str)
    requires
        d < 10,
    ensures
        r@ == spec_digit_str(d as int),
{
    if d == 0 {
        "0"
    } else if d == 1 {
        "1"
    } else if d == 2 {
        "2"
    } else if d == 3 {
        "3"
    } else if d == 4 {
        "4"
    } else if d == 5 {
        "5"
    } else if d == 6 {
        "6"
    } else if d == 7 {
        "7"
    } else if d == 8 {
        "8"
    } else {
        "9"
    }
}

/// Renders a `u32` as its decimal numeral.
pub fn u32_to_string(n: u32) -> (r: String)
    ensures
        r@ == spec_u32_str(n as int),
    decreases n,
{
    if n < 10 {
        digit_str(n).to_owned()
    } else {
        let mut s = u32_to_string(n / 10);
        s.append(digit_str(n % 10));
        s
    }
}

/// A value zero-padded to at least two digits.
pub open spec fn spec_pad2(n: int) -> Seq<char> {
    if n < 10 {
        ("0")@ + spec_u32_str(n)
    } else {
        spec_u32_str(n)
    }
}

pub fn pad2(n: u32) -> (r: String)
    ensures
        r@ == spec_pad2(n as int),
{
    if n < 10 {
        let mut s = String::from_str("0");
        s.append(u32_to_string(n).as_str());
        s
    } else {
        u32_to_string(n)
    }
}

/// A value zero-padded to at least four digits.
pub open spec fn spec_pad4(n: int) -> Seq<char> {
    if n < 10 {
        ("000")@ + spec_u32_str(n)
    } else if n < 100 {
        ("00")@ + spec_u32_str(n)
    } else if n < 1000 {
        ("0")@ + spec_u32_str(n)
    } else {
        spec_u32_str(n)
    }
}

pub fn pad4(n: u32) -> (r: String)
    ensures
        r@ == spec_pad4(n as int),
{
    if n < 10 {
        let mut s = String::from_str("000");
        s.append(u32_to_string(n).as_str());
        s
    } else if n < 100 {
        let mut s = String::from_str("00");
        s.append(u32_to_string(n).as_str());
        s
    } else if n < 1000 {
        let mut s = String::from_str("0");
        s.append(u32_to_string(n).as_str());
        s
    } else {
        u32_to_string(n)
    }
}

// ---------------------------------------------------------------------------
// Floating-point tokens
// ---------------------------------------------------------------------------
//
// Floating-point values never enter the library: a load or priority token
// is validated against the grammar that std documents for reading a
// double-precision value, and carried as its text.

/// An optional leading sign is accepted before a floating-point value.
pub open spec fn strip_sign(s: Seq<char>) -> Seq<char> {
    if s.len() > 0 && (s[0] == '+' || s[0] == '-') {
        s.drop_first()
    } else {
        s
    }
}

/// Index of the first exponent marker (`e` or `E`) at or after `i`, or
/// the length of `t`.
pub open spec fn find_exp_marker(t: Seq<char>, i: int) -> int
    decreases t.len() - i,
        when 0 <= i <= t.len()
{
    if i >= t.len() {
        i
    } else if crate::text::spec_lower_char(t[i]) == 'e' {
        i
    } else {
        find_exp_marker(t, i + 1)
    }
}

proof fn lemma_find_exp_marker_unique(t: Seq<char>, i: int, j: int)
    requires
        0 <= i <= j <= t.len(),
        forall|k: int| i <= k < j ==> crate::text::spec_lower_char(t[k]) != 'e',
        j == t.len() || crate::text::spec_lower_char(t[j]) == 'e',
    ensures
        find_exp_marker(t, i) == j,
    decreases j - i,
{
    if i < j {
        lemma_find_exp_marker_unique(t, i + 1, j);
    }
}

/// The exponent after the marker: an optional sign, then digits.
pub open spec fn is_exp_part(x: Seq<char>) -> bool {
    let d = strip_sign(x);
    d.len() > 0 && all_digits(d)
}

/// A mantissa: digits with at most one decimal point, with a digit
/// before the point or, when the point leads, after it.
pub open spec fn is_mantissa(m: Seq<char>) -> bool {
    let d = crate::text::find_char(m, '.', 0);
    if d == m.len() {
        m.len() > 0 && all_digits(m)
    } else {
        all_digits(m.take(d)) && all_digits(m.skip(d + 1)) && (d > 0 || m.len() > 1)
    }
}

/// A decimal floating-point number: a mantissa, optionally followed by
/// an exponent marker and an exponent.
pub open spec fn is_float_number(t: Seq<char>) -> bool {
    let e = find_exp_marker(t, 0);
    if e == t.len() {
        is_mantissa(t)
    } else {
        is_mantissa(t.take(e)) && is_exp_part(t.skip(e + 1))
    }
}

/// The tokens std documents as readable `f64` values: an optional sign,
/// then an infinity or not-a-number keyword (case-insensitive) or a
/// decimal number.
pub open spec fn is_float_token(s: Seq<char>) -> bool {
    let t = strip_sign(s);
    crate::text::spec_lower(t) == ("inf")@ || crate::text::spec_lower(t) == ("infinity")@
        || crate::text::spec_lower(t) == ("nan")@ || is_float_number(t)
}

/// An optional floating-point field: the token itself where it denotes a
/// value, absent otherwise.
pub open spec fn spec_float_field(s: Seq<char>) -> Option<Seq<char>> {
    if is_float_token(s) {
        Some(s)
    } else {
        None
    }
}

pub open spec fn opt_str_view(o: Option<String>) -> Option<Seq<char>> {
    match o {
        Some(s) => Some(s@),
        None => None,
    }
}

/// Checks that `[from, to)` of `s` holds decimal digits only.
fn is_digits_range(s: &str, from: usize, to: usize) -> (r: bool)
    requires
        from <= to <= s@.len(),
    ensures
        r == all_digits(s@.subrange(from as int, to as int)),
{
    let ghost d = s@.subrange(from as int, to as int);
    let mut i: usize = from;
    while i < to
        invariant
            from <= i <= to <= s@.len(),
            d == s@.subrange(from as int, to as int),
            forall|k: int| 0 <= k < i - from ==> is_digit_char(d[k]),
        decreases to - i,
    {
        let u = s.get_char(i) as u32;
        if u < 0x30 || u > 0x39 {
            assert(!is_digit_char(d[i - from]));
            return false;
        }
        i += 1;
    }
    true
}

fn is_mantissa_str(m: &str) -> (r: bool)
    ensures
        r == is_mantissa(m@),
{
    let n: usize = m.unicode_len();
    let mut d: usize = 0;
    while d < n && m.get_char(d) != '.'
        invariant
            d <= n,
            n == m@.len(),
            forall|k: int| 0 <= k < d ==> m@[k] != '.',
        decreases n - d,
    {
        d += 1;
    }
    proof {
        crate::text::lemma_find_char_unique(m@, '.', 0, d as int);
    }
    if d == n {
        proof {
            assert(m@.subrange(0, n as int) =~= m@);
        }
        n > 0 && is_digits_range(m, 0, n)
    } else {
        proof {
            assert(m@.take(d as int) =~= m@.subrange(0, d as int));
            assert(m@.skip(d + 1) =~= m@.subrange(d + 1, n as int));
        }
        is_digits_range(m, 0, d) && is_digits_range(m, d + 1, n) && (d > 0 || n > 1)
    }
}

fn is_exp_part_str(x: &str) -> (r: bool)
    ensures
        r == is_exp_part(x@),
{
    let n: usize = x.unicode_len();
    let start: usize = if n > 0 {
        let c0 = x.get_char(0);
        if c0 == '+' || c0 == '-' {
            1
        } else {
            0
        }
    } else {
        0
    };
    proof {
        assert(strip_sign(x@) =~= x@.subrange(start as int, n as int));
    }
    start < n && is_digits_range(x, start, n)
}

/// Decides whether a token denotes a floating-point value.
pub fn is_float_str(s: &str) -> (r: bool)
    ensures
        r == is_float_token(s@),
{
    let n: usize = s.unicode_len();
    let start: usize = if n > 0 {
        let c0 = s.get_char(0);
        if c0 == '+' || c0 == '-' {
            1
        } else {
            0
        }
    } else {
        0
    };
    let t = s.substring_char(start, n);
    proof {
        assert(t@ =~= strip_sign(s@));
    }
    if crate::text::eq_fold_lower(t, "inf") || crate::text::eq_fold_lower(t, "infinity")
        || crate::text::eq_fold_lower(t, "nan") {
        return true;
    }
    let m: usize = t.unicode_len();
    let mut e: usize = 0;
    while e < m && crate::text::lower_char(t.get_char(e)) != 'e'
        invariant
            e <= m,
            m == t@.len(),
            forall|k: int| 0 <= k < e ==> crate::text::spec_lower_char(t@[k]) != 'e',
        decreases m - e,
    {
        e += 1;
    }
    proof {
        lemma_find_exp_marker_unique(t@, 0, e as int);
    }
    let mant = t.substring_char(0, e);
    proof {
        assert(mant@ =~= t@.take(e as int));
    }
    let mant_ok = is_mantissa_str(mant);
    if e == m {
        proof {
            assert(t@.take(e as int) =~= t@);
        }
        mant_ok
    } else {
        let exp = t.substring_char(e + 1, m);
        proof {
            assert(exp@ =~= t@.skip(e + 1));
        }
        mant_ok && is_exp_part_str(exp)
    }
}

/// Parses an optional floating-point field: the token is kept as its
/// text when it denotes a value, and absent otherwise, never an error.
pub fn parse_float_field(s: &str) -> (r: Option<String>)
    ensures
        opt_str_view(r) == spec_float_field(s@),
{
    if is_float_str(s) {
        Some(s.to_owned())
    } else {
        None
    }
}

} // verus!
