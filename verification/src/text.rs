//! Character, line and token primitives shared by the record parsers.
//!
//! Command output is processed as a sequence of lines; each line is
//! tokenized on runs of whitespace.  Keyword matching is case-insensitive,
//! folding ASCII letters to lower case.

use vstd::prelude::*;
use vstd::string::*;

verus! {

// ---------------------------------------------------------------------------
// Case folding
// ---------------------------------------------------------------------------

/// ASCII lower-case folding of one character; all others are unchanged.
pub open spec fn spec_lower_char(c: char) -> char {
    match c {
        'A' => 'a',
        'B' => 'b',
        'C' => 'c',
        'D' => 'd',
        'E' => 'e',
        'F' => 'f',
        'G' => 'g',
        'H' => 'h',
        'I' => 'i',
        'J' => 'j',
        'K' => 'k',
        'L' => 'l',
        'M' => 'm',
        'N' => 'n',
        'O' => 'o',
        'P' => 'p',
        'Q' => 'q',
        'R' => 'r',
        'S' => 's',
        'T' => 't',
        'U' => 'u',
        'V' => 'v',
        'W' => 'w',
        'X' => 'x',
        'Y' => 'y',
        'Z' => 'z',
        _ => c,
    }
}

/// ASCII upper-case folding of one character; all others are unchanged.
pub open spec fn spec_upper_char(c: char) -> char {
    match c {
        'a' => 'A',
        'b' => 'B',
        'c' => 'C',
        'd' => 'D',
        'e' => 'E',
        'f' => 'F',
        'g' => 'G',
        'h' => 'H',
        'i' => 'I',
        'j' => 'J',
        'k' => 'K',
        'l' => 'L',
        'm' => 'M',
        'n' => 'N',
        'o' => 'O',
        'p' => 'P',
        'q' => 'Q',
        'r' => 'R',
        's' => 'S',
        't' => 'T',
        'u' => 'U',
        'v' => 'V',
        'w' => 'W',
        'x' => 'X',
        'y' => 'Y',
        'z' => 'Z',
        _ => c,
    }
}

pub fn lower_char(c: char) -> (r: char)
    ensures
        r == spec_lower_char(c),
{
    match c {
        'A' => 'a',
        'B' => 'b',
        'C' => 'c',
        'D' => 'd',
        'E' => 'e',
        'F' => 'f',
        'G' => 'g',
        'H' => 'h',
        'I' => 'i',
        'J' => 'j',
        'K' => 'k',
        'L' => 'l',
        'M' => 'm',
        'N' => 'n',
        'O' => 'o',
        'P' => 'p',
        'Q' => 'q',
        'R' => 'r',
        'S' => 's',
        'T' => 't',
        'U' => 'u',
        'V' => 'v',
        'W' => 'w',
        'X' => 'x',
        'Y' => 'y',
        'Z' => 'z',
        _ => c,
    }
}

/// Lower-case folding of a whole character sequence.
pub open spec fn spec_lower(s: Seq<char>) -> Seq<char> {
    Seq::new(s.len(), |i: int| spec_lower_char(s[i]))
}

/// Upper-case folding of a whole character sequence.
pub open spec fn spec_upper(s: Seq<char>) -> Seq<char> {
    Seq::new(s.len(), |i: int| spec_upper_char(s[i]))
}

proof fn lemma_fold_char(c: char)
    ensures
        spec_lower_char(spec_lower_char(c)) == spec_lower_char(c),
        spec_lower_char(spec_upper_char(c)) == spec_lower_char(c),
{
}

/// Folding to lower case is idempotent and absorbs upper-case folding,
/// so any predicate of the folded text is case-insensitive.
pub proof fn lemma_lower_fold(s: Seq<char>)
    ensures
        spec_lower(spec_lower(s)) == spec_lower(s),
        spec_lower(spec_upper(s)) == spec_lower(s),
{
    assert forall|i: int| 0 <= i < s.len() implies spec_lower_char(spec_lower_char(s[i]))
        == spec_lower_char(s[i]) && spec_lower_char(spec_upper_char(s[i]))
        == spec_lower_char(s[i]) by {
        lemma_fold_char(s[i]);
    }
    assert(spec_lower(spec_lower(s)) =~= spec_lower(s));
    assert(spec_lower(spec_upper(s)) =~= spec_lower(s));
}

/// Compares the lower-case folding of `s` with the keyword `kw`
/// (which callers pass already in lower case).
pub fn eq_fold_lower(s: &str, kw: &str) -> (r: bool)
    ensures
        r == (spec_lower(s@) == kw@),
{
    let n: usize = s.unicode_len();
    let m: usize = kw.unicode_len();
    if n != m {
        assert(spec_lower(s@).len() != kw@.len());
        return false;
    }
    let mut i: usize = 0;
    while i < n
        invariant
            i <= n,
            n == s@.len(),
            n == kw@.len(),
            forall|k: int| 0 <= k < i ==> spec_lower_char(s@[k]) == kw@[k],
        decreases n - i,
    {
        let c = lower_char(s.get_char(i));
        let d = kw.get_char(i);
        if c != d {
            assert(spec_lower(s@)[i as int] != kw@[i as int]);
            return false;
        }
        i += 1;
    }
    assert(spec_lower(s@) =~= kw@);
    true
}

/// Compares two texts character by character.
pub fn str_eq(a: &str, b: &str) -> (r: bool)
    ensures
        r == (a@ == b@),
{
    let n: usize = a.unicode_len();
    let m: usize = b.unicode_len();
    if n != m {
        return false;
    }
    let mut i: usize = 0;
    while i < n
        invariant
            i <= n,
            n == a@.len(),
            n == b@.len(),
            forall|k: int| 0 <= k < i ==> a@[k] == b@[k],
        decreases n - i,
    {
        if a.get_char(i) != b.get_char(i) {
            return false;
        }
        i += 1;
    }
    assert(a@ =~= b@);
    true
}

// ---------------------------------------------------------------------------
// Whitespace
// ---------------------------------------------------------------------------

/// The Unicode white-space characters, the set on which tokens are split.
pub open spec fn is_space_char(c: char) -> bool {
    let u = c as u32;
    u == 0x09 || u == 0x0A || u == 0x0B || u == 0x0C || u == 0x0D || u == 0x20 || u == 0x85
        || u == 0xA0 || u == 0x1680 || (0x2000 <= u && u <= 0x200A) || u == 0x2028 || u == 0x2029
        || u == 0x202F || u == 0x205F || u == 0x3000
}

pub fn is_space(c: char) -> (r: bool)
    ensures
        r == is_space_char(c),
{
    let u = c as u32;
    u == 0x09 || u == 0x0A || u == 0x0B || u == 0x0C || u == 0x0D || u == 0x20 || u == 0x85
        || u == 0xA0 || u == 0x1680 || (0x2000 <= u && u <= 0x200A) || u == 0x2028 || u == 0x2029
        || u == 0x202F || u == 0x205F || u == 0x3000
}

// ---------------------------------------------------------------------------
// Lines
// ---------------------------------------------------------------------------

/// Index of the first occurrence of `c` at or after `i`, or the length
/// of `s`.
pub open spec fn find_char(s: Seq<char>, c: char, i: int) -> int
    decreases s.len() - i,
        when 0 <= i <= s.len()
{
    if i >= s.len() {
        i
    } else if s[i] == c {
        i
    } else {
        find_char(s, c, i + 1)
    }
}

pub proof fn lemma_find_char(s: Seq<char>, c: char, i: int)
    requires
        0 <= i <= s.len(),
    ensures
        i <= find_char(s, c, i) <= s.len(),
        find_char(s, c, i) < s.len() ==> s[find_char(s, c, i)] == c,
        forall|k: int| i <= k < find_char(s, c, i) ==> s[k] != c,
    decreases s.len() - i,
{
    if i < s.len() && s[i] != c {
        lemma_find_char(s, c, i + 1);
    }
}

/// `find_char` is the unique position not preceded by the character
/// that holds it or ends the text.
pub proof fn lemma_find_char_unique(s: Seq<char>, c: char, i: int, j: int)
    requires
        0 <= i <= j <= s.len(),
        forall|k: int| i <= k < j ==> s[k] != c,
        j == s.len() || s[j] == c,
    ensures
        find_char(s, c, i) == j,
    decreases j - i,
{
    if i < j {
        lemma_find_char_unique(s, c, i + 1, j);
    }
}

/// A line with a trailing carriage return has it removed.
pub open spec fn strip_cr(l: Seq<char>) -> Seq<char> {
    if l.len() > 0 && l[l.len() - 1] == '\r' {
        l.drop_last()
    } else {
        l
    }
}

/// The lines of `s` from position `i` on: segments between newlines,
/// each with a trailing carriage return removed; a trailing newline
/// does not open a final empty line.
pub open spec fn spec_lines_from(s: Seq<char>, i: int) -> Seq<Seq<char>>
    decreases s.len() - i,
        when 0 <= i <= s.len()
        via spec_lines_from_decreases
{
    if i >= s.len() {
        Seq::empty()
    } else {
        let j = find_char(s, '\n', i);
        if j == s.len() {
            seq![strip_cr(s.subrange(i, j))]
        } else {
            seq![strip_cr(s.subrange(i, j))] + spec_lines_from(s, j + 1)
        }
    }
}

#[via_fn]
proof fn spec_lines_from_decreases(s: Seq<char>, i: int) {
    if 0 <= i <= s.len() {
        lemma_find_char(s, '\n', i);
    }
}

/// The lines of a whole text.
pub open spec fn spec_lines(s: Seq<char>) -> Seq<Seq<char>> {
    spec_lines_from(s, 0)
}

/// Splits a text into its lines.
pub fn split_lines(s: &str) -> (r: Vec<String>)
    ensures
        r.deep_view() == spec_lines(s@),
{
    let n: usize = s.unicode_len();
    let mut r: Vec<String> = Vec::new();
    let mut i: usize = 0;
    loop
        invariant_except_break
            r.deep_view() + spec_lines_from(s@, i as int) == spec_lines(s@),
        invariant
            n == s@.len(),
            i <= n,
        ensures
            r.deep_view() == spec_lines(s@),
        decreases n - i,
    {
        if i >= n {
            proof {
                assert(spec_lines_from(s@, i as int) =~= Seq::<Seq<char>>::empty());
                assert(r.deep_view() =~= r.deep_view() + spec_lines_from(s@, i as int));
            }
            break;
        }
        let ghost prev = r.deep_view();
        let mut j: usize = i;
        while j < n && s.get_char(j) != '\n'
            invariant
                n == s@.len(),
                i <= j <= n,
                forall|k: int| i <= k < j ==> s@[k] != '\n',
            decreases n - j,
        {
            j += 1;
        }
        proof {
            lemma_find_char_unique(s@, '\n', i as int, j as int);
        }
        let line = s.substring_char(i, j);
        let stripped = if line.unicode_len() > 0 && line.get_char(line.unicode_len() - 1) == '\r' {
            line.substring_char(0, line.unicode_len() - 1)
        } else {
            line
        };
        proof {
            assert(stripped@ =~= strip_cr(s@.subrange(i as int, j as int)));
        }
        r.push(stripped.to_owned());
        proof {
            assert(r.deep_view() =~= prev.push(stripped@));
        }
        if j == n {
            proof {
                assert(spec_lines_from(s@, i as int) =~= seq![stripped@]);
                assert(r.deep_view() =~= spec_lines(s@));
            }
            break;
        }
        proof {
            assert(spec_lines_from(s@, i as int) =~= seq![stripped@] + spec_lines_from(
                s@,
                j + 1,
            ));
            assert(r.deep_view() + spec_lines_from(s@, j + 1) =~= spec_lines(s@));
        }
        i = j + 1;
    }
    r
}

// ---------------------------------------------------------------------------
// Tokens
// ---------------------------------------------------------------------------

/// End of the token that starts at `i`: the first white-space position
/// at or after `i`, or the length of `l`.
pub open spec fn token_end(l: Seq<char>, i: int) -> int
    decreases l.len() - i,
        when 0 <= i <= l.len()
{
    if i >= l.len() || is_space_char(l[i]) {
        i
    } else {
        token_end(l, i + 1)
    }
}

proof fn lemma_token_end(l: Seq<char>, i: int)
    requires
        0 <= i <= l.len(),
    ensures
        i <= token_end(l, i) <= l.len(),
        token_end(l, i) < l.len() ==> is_space_char(l[token_end(l, i)]),
        forall|k: int| i <= k < token_end(l, i) ==> !is_space_char(l[k]),
    decreases l.len() - i,
{
    if i < l.len() && !is_space_char(l[i]) {
        lemma_token_end(l, i + 1);
    }
}

proof fn lemma_token_end_unique(l: Seq<char>, i: int, j: int)
    requires
        0 <= i <= j <= l.len(),
        forall|k: int| i <= k < j ==> !is_space_char(l[k]),
        j == l.len() || is_space_char(l[j]),
    ensures
        token_end(l, i) == j,
    decreases j - i,
{
    if i < j {
        lemma_token_end_unique(l, i + 1, j);
    }
}

/// The tokens of `l` from position `i` on: the maximal runs of
/// non-white-space characters.
pub open spec fn spec_tokens_from(l: Seq<char>, i: int) -> Seq<Seq<char>>
    decreases l.len() - i,
        when 0 <= i <= l.len()
        via spec_tokens_from_decreases
{
    if i >= l.len() {
        Seq::empty()
    } else if is_space_char(l[i]) {
        spec_tokens_from(l, i + 1)
    } else {
        seq![l.subrange(i, token_end(l, i))] + spec_tokens_from(l, token_end(l, i))
    }
}

#[via_fn]
proof fn spec_tokens_from_decreases(l: Seq<char>, i: int) {
    if 0 <= i <= l.len() {
        lemma_token_end(l, i);
    }
}

/// The tokens of a whole line.
pub open spec fn spec_tokens(l: Seq<char>) -> Seq<Seq<char>> {
    spec_tokens_from(l, 0)
}

/// Splits a line into its white-space-separated tokens.
pub fn tokenize(l: &str) -> (r: Vec<String>)
    ensures
        r.deep_view() == spec_tokens(l@),
{
    let n: usize = l.unicode_len();
    let mut r: Vec<String> = Vec::new();
    let mut i: usize = 0;
    while i < n
        invariant
            n == l@.len(),
            i <= n,
            r.deep_view() + spec_tokens_from(l@, i as int) == spec_tokens(l@),
        decreases n - i,
    {
        if is_space(l.get_char(i)) {
            i += 1;
        } else {
            let ghost prev = r.deep_view();
            let mut j: usize = i;
            while j < n && !is_space(l.get_char(j))
                invariant
                    n == l@.len(),
                    i <= j <= n,
                    forall|k: int| i <= k < j ==> !is_space_char(l@[k]),
                decreases n - j,
            {
                j += 1;
            }
            proof {
                lemma_token_end_unique(l@, i as int, j as int);
            }
            let token = l.substring_char(i, j);
            r.push(token.to_owned());
            proof {
                assert(r.deep_view() =~= prev.push(token@));
            }
            i = j;
        }
    }
    proof {
        assert(spec_tokens_from(l@, n as int) =~= Seq::<Seq<char>>::empty());
        assert(r.deep_view() =~= r.deep_view() + spec_tokens_from(l@, n as int));
    }
    r
}

} // verus!
