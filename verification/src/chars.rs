//! Character-level utilities shared by the parsing and rendering code.
//!
//! Executable code works on `Vec<char>` so that every scan and build step is
//! verified; the two conversions to and from `str` are the only trusted steps.

use vstd::prelude::*;

verus! {

/// Relies on `str::chars` and `Iterator::collect`: the characters of the
/// string in order, which is exactly the string's view.
#[verifier::external_body]
pub fn str_chars(s: &str) -> (r: Vec<char>)
    ensures
        r@ == s@,
{
    s.chars().collect()
}

/// Relies on `Iterator::collect` for `String`: the string made of exactly
/// these characters in order.
#[verifier::external_body]
pub fn chars_string(v: &Vec<char>) -> (r: String)
    ensures
        r@ == v@,
{
    v.iter().collect()
}

/// The Unicode white-space characters, as `char::is_whitespace` lists them.
pub open spec fn is_space_char(c: char) -> bool {
    c == ' ' || c == '\t' || c == '\n' || c == '\r' || c == '\u{000B}' || c == '\u{000C}'
        || c == '\u{0085}' || c == '\u{00A0}' || c == '\u{1680}'
        || ('\u{2000}' <= c && c <= '\u{200A}') || c == '\u{2028}' || c == '\u{2029}'
        || c == '\u{202F}' || c == '\u{205F}' || c == '\u{3000}'
}

pub fn is_space(c: char) -> (r: bool)
    ensures
        r == is_space_char(c),
{
    c == ' ' || c == '\t' || c == '\n' || c == '\r' || c == '\u{000B}' || c == '\u{000C}'
        || c == '\u{0085}' || c == '\u{00A0}' || c == '\u{1680}'
        || ('\u{2000}' <= c && c <= '\u{200A}') || c == '\u{2028}' || c == '\u{2029}'
        || c == '\u{202F}' || c == '\u{205F}' || c == '\u{3000}'
}

/// A word character of a placeholder name: ASCII letters, digits, underscore.
pub open spec fn is_word_char(c: char) -> bool {
    ('a' <= c && c <= 'z') || ('A' <= c && c <= 'Z') || ('0' <= c && c <= '9') || c == '_'
}

pub fn is_word(c: char) -> (r: bool)
    ensures
        r == is_word_char(c),
{
    ('a' <= c && c <= 'z') || ('A' <= c && c <= 'Z') || ('0' <= c && c <= '9') || c == '_'
}

pub open spec fn is_digit_char(c: char) -> bool {
    '0' <= c && c <= '9'
}

pub fn is_digit(c: char) -> (r: bool)
    ensures
        r == is_digit_char(c),
{
    '0' <= c && c <= '9'
}

/// `p` stands at the start of `s`.
pub open spec fn seq_starts_with(s: Seq<char>, p: Seq<char>) -> bool {
    p.len() <= s.len() && s.subrange(0, p.len() as int) == p
}

/// `p` stands in `s` at position `i`.
pub open spec fn match_at(s: Seq<char>, p: Seq<char>, i: int) -> bool {
    0 <= i && i + p.len() <= s.len() && s.subrange(i, i + p.len() as int) == p
}

/// `p` occurs somewhere in `s`.
pub open spec fn has_substring(s: Seq<char>, p: Seq<char>) -> bool {
    exists|i: int| match_at(s, p, i)
}

pub fn chars_start_with(s: &Vec<char>, p: &Vec<char>, from: usize) -> (r: bool)
    requires
        from <= s@.len(),
    ensures
        r == match_at(s@, p@, from as int),
{
    let n = s.len();
    if p.len() > n - from {
        assert(!match_at(s@, p@, from as int));
        return false;
    }
    let mut j: usize = 0;
    while j < p.len()
        invariant
            n == s@.len(),
            from + p@.len() <= s@.len(),
            0 <= j <= p@.len(),
            forall|k: int| 0 <= k < j ==> s@[from + k] == p@[k],
        decreases p@.len() - j,
    {
        if s[from + j] != p[j] {
            assert(s@.subrange(from as int, from + p@.len() as int)[j as int] != p@[j as int]);
            return false;
        }
        j += 1;
    }
    assert(s@.subrange(from as int, from + p@.len() as int) =~= p@);
    true
}

pub fn chars_contain(s: &Vec<char>, p: &Vec<char>) -> (r: bool)
    ensures
        r == has_substring(s@, p@),
{
    let n = s.len();
    let m = p.len();
    if m == 0 {
        assert(s@.subrange(0, 0) =~= p@);
        assert(match_at(s@, p@, 0));
        return true;
    }
    if m > n {
        assert(forall|k: int| !match_at(s@, p@, k));
        return false;
    }
    let mut i: usize = 0;
    while i <= n - m
        invariant
            n == s@.len(),
            m == p@.len(),
            0 < m <= n,
            0 <= i <= n - m + 1,
            forall|k: int| 0 <= k < i ==> !match_at(s@, p@, k),
        decreases n - m + 1 - i,
    {
        if chars_start_with(s, p, i) {
            assert(match_at(s@, p@, i as int));
            return true;
        }
        i += 1;
    }
    assert(forall|k: int| match_at(s@, p@, k) ==> 0 <= k <= s@.len() - p@.len());
    false
}

/// Appends the characters of `s` onto `out`.
pub fn push_chars(out: &mut Vec<char>, s: &str)
    ensures
        final(out)@ == old(out)@ + s@,
{
    let cs = str_chars(s);
    let mut j: usize = 0;
    while j < cs.len()
        invariant
            cs@ == s@,
            0 <= j <= cs@.len(),
            out@ == old(out)@ + cs@.subrange(0, j as int),
        decreases cs@.len() - j,
    {
        out.push(cs[j]);
        proof {
            assert(cs@.subrange(0, j + 1) =~= cs@.subrange(0, j as int).push(cs@[j as int]));
            assert(out@ =~= old(out)@ + cs@.subrange(0, j + 1));
        }
        j += 1;
    }
    proof {
        assert(cs@.subrange(0, cs@.len() as int) =~= cs@);
    }
}

/// A copy of `v[from..to]`.
pub fn sub_chars(v: &Vec<char>, from: usize, to: usize) -> (r: Vec<char>)
    requires
        from <= to <= v@.len(),
    ensures
        r@ == v@.subrange(from as int, to as int),
{
    let mut r: Vec<char> = Vec::new();
    let mut j: usize = from;
    while j < to
        invariant
            from <= j <= to <= v@.len(),
            r@ == v@.subrange(from as int, j as int),
        decreases to - j,
    {
        r.push(v[j]);
        proof {
            assert(r@ =~= v@.subrange(from as int, j + 1));
        }
        j += 1;
    }
    r
}

/// A copy of the byte vector.
pub fn copy_bytes(v: &Vec<u8>) -> (r: Vec<u8>)
    ensures
        r@ == v@,
{
    let mut r: Vec<u8> = Vec::new();
    let mut j: usize = 0;
    while j < v.len()
        invariant
            0 <= j <= v@.len(),
            r@ == v@.subrange(0, j as int),
        decreases v@.len() - j,
    {
        r.push(v[j]);
        proof {
            assert(r@ =~= v@.subrange(0, j + 1));
        }
        j += 1;
    }
    proof {
        assert(v@.subrange(0, v@.len() as int) =~= v@);
    }
    r
}

/// The text that a byte sequence spells in UTF-8, when it is valid.
/// `String::from_utf8`'s reading is a function of the bytes alone.
pub uninterp spec fn utf8_decode(b: Seq<u8>) -> Option<Seq<char>>;

/// Relies on `String::from_utf8`: decodes the bytes as UTF-8 text, or
/// nothing when they are not valid UTF-8.
#[verifier::external_body]
pub fn bytes_to_string(b: Vec<u8>) -> (r: Option<String>)
    ensures
        match r {
            Some(s) => utf8_decode(b@) == Some(s@),
            None => utf8_decode(b@) is None,
        },
{
    String::from_utf8(b).ok()
}

/// The text a byte sequence spells in UTF-8 with invalid parts replaced,
/// as `String::from_utf8_lossy` reads it: a function of the bytes alone.
pub uninterp spec fn utf8_lossy(b: Seq<u8>) -> Seq<char>;

/// Relies on `String::from_utf8_lossy`: decodes the bytes as UTF-8 text,
/// substituting the replacement character for invalid sequences.
#[verifier::external_body]
pub fn bytes_to_string_lossy(b: &Vec<u8>) -> (r: String)
    ensures
        r@ == utf8_lossy(b@),
{
    String::from_utf8_lossy(b).into_owned()
}

/// The equality of two strings, decided and related to their views.
pub fn str_eq(a: &str, b: &str) -> (r: bool)
    ensures
        r == (a@ == b@),
{
    let x: String = a.to_owned();
    let y: String = b.to_owned();
    x == y
}

/// Index of the first char from `from` on that fails `is_word_char`,
/// or the length when all do.
pub open spec fn word_run_end(s: Seq<char>, from: int) -> int
    decreases s.len() - from,
{
    if from < 0 || from >= s.len() {
        from
    } else if is_word_char(s[from]) {
        word_run_end(s, from + 1)
    } else {
        from
    }
}

pub proof fn lemma_word_run_end(s: Seq<char>, from: int)
    requires
        0 <= from <= s.len(),
    ensures
        from <= word_run_end(s, from) <= s.len(),
        forall|k: int| from <= k < word_run_end(s, from) ==> is_word_char(s[k]),
        word_run_end(s, from) < s.len() ==> !is_word_char(s[word_run_end(s, from)]),
    decreases s.len() - from,
{
    if from < s.len() && is_word_char(s[from]) {
        lemma_word_run_end(s, from + 1);
    }
}

/// Scans the maximal run of word chars starting at `from`.
pub fn word_run(s: &Vec<char>, from: usize) -> (r: usize)
    requires
        from <= s@.len(),
    ensures
        r == word_run_end(s@, from as int),
        from <= r <= s@.len(),
{
    proof {
        lemma_word_run_end(s@, from as int);
    }
    let mut i: usize = from;
    while i < s.len()
        invariant
            from <= i <= s@.len(),
            forall|k: int| from <= k < i ==> is_word_char(s@[k]),
            word_run_end(s@, from as int) >= i,
        decreases s@.len() - i,
    {
        if !is_word(s[i]) {
            proof {
                lemma_word_run_end_stops(s@, from as int, i as int);
            }
            return i;
        }
        proof {
            lemma_word_run_end_step(s@, from as int, i as int);
        }
        i += 1;
    }
    proof {
        lemma_word_run_end(s@, from as int);
    }
    i
}

proof fn lemma_word_run_end_step(s: Seq<char>, from: int, i: int)
    requires
        0 <= from <= i < s.len(),
        forall|k: int| from <= k <= i ==> is_word_char(s[k]),
    ensures
        word_run_end(s, from) >= i + 1,
    decreases i - from,
{
    lemma_word_run_end(s, from + 1);
    if from < i {
        lemma_word_run_end_step(s, from + 1, i);
    }
}

proof fn lemma_word_run_end_stops(s: Seq<char>, from: int, i: int)
    requires
        0 <= from <= i < s.len(),
        forall|k: int| from <= k < i ==> is_word_char(s[k]),
        !is_word_char(s[i]),
    ensures
        word_run_end(s, from) == i,
    decreases i - from,
{
    if from < i {
        lemma_word_run_end_stops(s, from + 1, i);
    }
}

} // verus!
