//! The request fingerprinter's helpers: canonical URLs, URL-encoded forms,
//! and the parameter maps the substitutor draws from.
//!
//! A canonical request key is the path followed, when query parameters are
//! present, by `?` and the form-encoded pairs. Parameters come either from
//! the request body's JSON object or from the URL: query pairs first, then
//! path segments paired left-to-right.

use vstd::prelude::*;
use crate::chars::{
    str_chars, chars_string, sub_chars, push_chars, is_digit_char, is_digit, utf8_decode,
    utf8_lossy, bytes_to_string, bytes_to_string_lossy,
};
use crate::json::{JsonValue, json_parse, text_of, to_json_string};
use crate::subst::{Params, param_map};
use crate::table::StrTable;

verus! {

/// The UTF-8 bytes of one character.
pub open spec fn utf8_bytes(c: char) -> Seq<u8> {
    let n = c as u32;
    if n < 0x80 {
        seq![n as u8]
    } else if n < 0x800 {
        seq![(0xC0 + n / 0x40) as u8, (0x80 + n % 0x40) as u8]
    } else if n < 0x10000 {
        seq![
            (0xE0 + n / 0x1000) as u8,
            (0x80 + (n / 0x40) % 0x40) as u8,
            (0x80 + n % 0x40) as u8,
        ]
    } else {
        seq![
            (0xF0 + n / 0x40000) as u8,
            (0x80 + (n / 0x1000) % 0x40) as u8,
            (0x80 + (n / 0x40) % 0x40) as u8,
            (0x80 + n % 0x40) as u8,
        ]
    }
}

/// Appends the UTF-8 encoding of `c`.
pub fn push_utf8(c: char, out: &mut Vec<u8>)
    ensures
        final(out)@ == old(out)@ + utf8_bytes(c),
{
    let n = c as u32;
    if n < 0x80 {
        out.push(n as u8);
        proof {
            assert(out@ =~= old(out)@ + utf8_bytes(c));
        }
    } else if n < 0x800 {
        out.push((0xC0 + n / 0x40) as u8);
        out.push((0x80 + n % 0x40) as u8);
        proof {
            assert(out@ =~= old(out)@ + utf8_bytes(c));
        }
    } else if n < 0x10000 {
        out.push((0xE0 + n / 0x1000) as u8);
        out.push((0x80 + (n / 0x40) % 0x40) as u8);
        out.push((0x80 + n % 0x40) as u8);
        proof {
            assert(out@ =~= old(out)@ + utf8_bytes(c));
        }
    } else {
        out.push((0xF0 + n / 0x40000) as u8);
        out.push((0x80 + (n / 0x1000) % 0x40) as u8);
        out.push((0x80 + (n / 0x40) % 0x40) as u8);
        out.push((0x80 + n % 0x40) as u8);
        proof {
            assert(out@ =~= old(out)@ + utf8_bytes(c));
        }
    }
}

pub open spec fn is_hex_char(c: char) -> bool {
    is_digit_char(c) || ('a' <= c && c <= 'f') || ('A' <= c && c <= 'F')
}

pub open spec fn hex_val(c: char) -> int {
    if is_digit_char(c) {
        c as int - '0' as int
    } else if 'a' <= c && c <= 'f' {
        c as int - 'a' as int + 10
    } else {
        c as int - 'A' as int + 10
    }
}

fn is_hex(c: char) -> (r: bool)
    ensures
        r == is_hex_char(c),
{
    is_digit(c) || ('a' <= c && c <= 'f') || ('A' <= c && c <= 'F')
}

fn hex_value(c: char) -> (r: u8)
    requires
        is_hex_char(c),
    ensures
        r == hex_val(c),
        r < 16,
{
    if is_digit(c) {
        (c as u32 - '0' as u32) as u8
    } else if 'a' <= c && c <= 'f' {
        (c as u32 - 'a' as u32 + 10) as u8
    } else {
        (c as u32 - 'A' as u32 + 10) as u8
    }
}

/// The first position of `c` in `s` at or after `i` and before `end`, or
/// `end` when there is none.
pub open spec fn find_until(s: Seq<char>, c: char, i: int, end: int) -> int
    decreases end - i,
{
    if i < 0 || i >= end || end > s.len() {
        end
    } else if s[i] == c {
        i
    } else {
        find_until(s, c, i + 1, end)
    }
}

pub proof fn lemma_find_until(s: Seq<char>, c: char, i: int, end: int)
    requires
        0 <= i <= end <= s.len(),
    ensures
        i <= find_until(s, c, i, end) <= end,
        forall|k: int| i <= k < find_until(s, c, i, end) ==> s[k] != c,
        find_until(s, c, i, end) < end ==> s[find_until(s, c, i, end)] == c,
    decreases end - i,
{
    if i < end && s[i] != c {
        lemma_find_until(s, c, i + 1, end);
    }
}

/// Finds `c` in `v[from..end)`, or `end`.
pub fn find_char(v: &Vec<char>, c: char, from: usize, end: usize) -> (r: usize)
    requires
        from <= end <= v@.len(),
    ensures
        r == find_until(v@, c, from as int, end as int),
{
    let mut i: usize = from;
    while i < end && v[i] != c
        invariant
            from <= i <= end <= v@.len(),
            find_until(v@, c, from as int, end as int) == find_until(v@, c, i as int, end as int),
        decreases end - i,
    {
        i += 1;
    }
    i
}

/// The bytes a form-encoded piece denotes: `+` is a space, `%XX` a byte,
/// everything else its own UTF-8 bytes.
pub open spec fn form_bytes(s: Seq<char>, i: int, end: int) -> Seq<u8>
    decreases end - i,
{
    if i < 0 || i >= end || end > s.len() {
        Seq::empty()
    } else if s[i] == '+' {
        seq![32u8] + form_bytes(s, i + 1, end)
    } else if s[i] == '%' && i + 2 < end && is_hex_char(s[i + 1]) && is_hex_char(s[i + 2]) {
        seq![(hex_val(s[i + 1]) * 16 + hex_val(s[i + 2])) as u8] + form_bytes(s, i + 3, end)
    } else {
        utf8_bytes(s[i]) + form_bytes(s, i + 1, end)
    }
}

/// The text a form-encoded piece decodes to, invalid UTF-8 replaced.
pub open spec fn form_decoded(s: Seq<char>, i: int, end: int) -> Seq<char> {
    utf8_lossy(form_bytes(s, i, end))
}

/// Decodes `v[from..end)` as a form-encoded piece.
#[verifier::loop_isolation(false)]
fn form_decode(v: &Vec<char>, from: usize, end: usize) -> (r: String)
    requires
        from <= end <= v@.len(),
    ensures
        r@ == form_decoded(v@, from as int, end as int),
{
    let mut bytes: Vec<u8> = Vec::new();
    let mut i: usize = from;
    while i < end
        invariant
            from <= i <= end,
            form_bytes(v@, from as int, end as int) == bytes@ + form_bytes(v@, i as int, end as int),
        decreases end - i,
    {
        let c = v[i];
        if c == '+' {
            bytes.push(32);
            proof {
                assert(form_bytes(v@, from as int, end as int) =~= bytes@ + form_bytes(v@, i + 1, end as int));
            }
            i += 1;
        } else if c == '%' && end - i > 2 && is_hex(v[i + 1]) && is_hex(v[i + 2]) {
            let b = hex_value(v[i + 1]) * 16 + hex_value(v[i + 2]);
            bytes.push(b);
            proof {
                assert(form_bytes(v@, from as int, end as int) =~= bytes@ + form_bytes(v@, i + 3, end as int));
            }
            i += 3;
        } else {
            push_utf8(c, &mut bytes);
            proof {
                assert(form_bytes(v@, from as int, end as int) =~= bytes@ + form_bytes(v@, i + 1, end as int));
            }
            i += 1;
        }
    }
    proof {
        assert(bytes@ =~= form_bytes(v@, from as int, end as int));
    }
    bytes_to_string_lossy(&bytes)
}

/// The bytes a percent-encoded text denotes: `%XX` a byte, everything else
/// its own UTF-8 bytes; `+` is not special here.
pub open spec fn pct_bytes(s: Seq<char>, i: int) -> Seq<u8>
    decreases s.len() - i,
{
    if i < 0 || i >= s.len() {
        Seq::empty()
    } else if s[i] == '%' && i + 2 < s.len() && is_hex_char(s[i + 1]) && is_hex_char(s[i + 2]) {
        seq![(hex_val(s[i + 1]) * 16 + hex_val(s[i + 2])) as u8] + pct_bytes(s, i + 3)
    } else {
        utf8_bytes(s[i]) + pct_bytes(s, i + 1)
    }
}

/// The text a percent-encoded text decodes to, when the bytes are valid
/// UTF-8; invalid escapes stand as themselves.
pub open spec fn percent_decoded(s: Seq<char>) -> Option<Seq<char>> {
    utf8_decode(pct_bytes(s, 0))
}

/// Decodes a percent-encoded text, as the admin delete route reads its
/// path argument.
#[verifier::loop_isolation(false)]
pub fn percent_decode(s: &str) -> (r: Option<String>)
    ensures
        match r {
            Some(t) => percent_decoded(s@) == Some(t@),
            None => percent_decoded(s@) is None,
        },
{
    let v = str_chars(s);
    let n = v.len();
    let mut bytes: Vec<u8> = Vec::new();
    let mut i: usize = 0;
    while i < n
        invariant
            0 <= i <= n,
            pct_bytes(v@, 0) == bytes@ + pct_bytes(v@, i as int),
        decreases n - i,
    {
        let c = v[i];
        if c == '%' && n - i > 2 && is_hex(v[i + 1]) && is_hex(v[i + 2]) {
            let b = hex_value(v[i + 1]) * 16 + hex_value(v[i + 2]);
            bytes.push(b);
            proof {
                assert(pct_bytes(v@, 0) =~= bytes@ + pct_bytes(v@, i + 3));
            }
            i += 3;
        } else {
            push_utf8(c, &mut bytes);
            proof {
                assert(pct_bytes(v@, 0) =~= bytes@ + pct_bytes(v@, i + 1));
            }
            i += 1;
        }
    }
    proof {
        assert(bytes@ =~= pct_bytes(v@, 0));
    }
    bytes_to_string(bytes)
}

/// The characters a form-encoded serialization leaves bare.
pub open spec fn form_unreserved(c: char) -> bool {
    ('a' <= c && c <= 'z') || ('A' <= c && c <= 'Z') || ('0' <= c && c <= '9') || c == '*' || c
        == '-' || c == '.' || c == '_'
}

pub open spec fn hex_upper(n: int) -> char {
    if n == 0 { '0' } else if n == 1 { '1' } else if n == 2 { '2' } else if n == 3 { '3' }
    else if n == 4 { '4' } else if n == 5 { '5' } else if n == 6 { '6' } else if n == 7 { '7' }
    else if n == 8 { '8' } else if n == 9 { '9' } else if n == 10 { 'A' } else if n == 11 { 'B' }
    else if n == 12 { 'C' } else if n == 13 { 'D' } else if n == 14 { 'E' } else { 'F' }
}

/// The form encoding of a byte run: each byte as `%XX`, upper case.
pub open spec fn enc_bytes(bs: Seq<u8>, i: int) -> Seq<char>
    decreases bs.len() - i,
{
    if i < 0 || i >= bs.len() {
        Seq::empty()
    } else {
        seq!['%', hex_upper(bs[i] as int / 16), hex_upper(bs[i] as int % 16)] + enc_bytes(bs, i + 1)
    }
}

/// The form encoding of one character: space becomes `+`, unreserved
/// characters stand bare, everything else is percent-escaped bytewise.
pub open spec fn form_enc_char(c: char) -> Seq<char> {
    if c == ' ' {
        seq!['+']
    } else if form_unreserved(c) {
        seq![c]
    } else {
        enc_bytes(utf8_bytes(c), 0)
    }
}

/// The form encoding of a text.
pub open spec fn form_encoded(s: Seq<char>, i: int) -> Seq<char>
    decreases s.len() - i,
{
    if i < 0 || i >= s.len() {
        Seq::empty()
    } else {
        form_enc_char(s[i]) + form_encoded(s, i + 1)
    }
}

fn hex_upper_char(n: u8) -> (c: char)
    requires
        n < 16,
    ensures
        c == hex_upper(n as int),
{
    if n == 0 { '0' } else if n == 1 { '1' } else if n == 2 { '2' } else if n == 3 { '3' }
    else if n == 4 { '4' } else if n == 5 { '5' } else if n == 6 { '6' } else if n == 7 { '7' }
    else if n == 8 { '8' } else if n == 9 { '9' } else if n == 10 { 'A' } else if n == 11 { 'B' }
    else if n == 12 { 'C' } else if n == 13 { 'D' } else if n == 14 { 'E' } else { 'F' }
}

/// Appends the form encoding of `s`.
#[verifier::loop_isolation(false)]
fn push_form_encoded(s: &str, out: &mut Vec<char>)
    ensures
        final(out)@ == old(out)@ + form_encoded(s@, 0),
{
    let v = str_chars(s);
    let n = v.len();
    let mut i: usize = 0;
    while i < n
        invariant
            0 <= i <= n,
            old(out)@ + form_encoded(v@, 0) == out@ + form_encoded(v@, i as int),
        decreases n - i,
    {
        let c = v[i];
        if c == ' ' {
            out.push('+');
        } else if ('a' <= c && c <= 'z') || ('A' <= c && c <= 'Z') || ('0' <= c && c <= '9') || c
            == '*' || c == '-' || c == '.' || c == '_' {
            out.push(c);
        } else {
            let mut bs: Vec<u8> = Vec::new();
            push_utf8(c, &mut bs);
            let ghost base = out@;
            let mut j: usize = 0;
            while j < bs.len()
                invariant
                    0 <= j <= bs@.len(),
                    bs@ == utf8_bytes(v@[i as int]),
                    out@ + enc_bytes(bs@, j as int) == base + enc_bytes(bs@, 0),
                decreases bs@.len() - j,
            {
                let b = bs[j];
                out.push('%');
                out.push(hex_upper_char(b / 16));
                out.push(hex_upper_char(b % 16));
                proof {
                    assert(enc_bytes(bs@, j as int) == seq![
                        '%',
                        hex_upper(bs@[j as int] as int / 16),
                        hex_upper(bs@[j as int] as int % 16),
                    ] + enc_bytes(bs@, j + 1));
                    assert(out@ + enc_bytes(bs@, j + 1) =~= base + enc_bytes(bs@, 0));
                }
                j += 1;
            }
            proof {
                assert(enc_bytes(bs@, bs@.len() as int) =~= Seq::<char>::empty());
                assert(out@ =~= base + enc_bytes(bs@, 0));
                assert(form_enc_char(v@[i as int]) == enc_bytes(utf8_bytes(v@[i as int]), 0));
            }
        }
        proof {
            assert(form_encoded(v@, i as int) == form_enc_char(v@[i as int]) + form_encoded(v@, i + 1));
            assert(old(out)@ + form_encoded(v@, 0) =~= out@ + form_encoded(v@, i + 1));
        }
        i += 1;
    }
    proof {
        assert(out@ =~= old(out)@ + form_encoded(v@, 0));
    }
}

/// The form-encoded query string of the parameter entries from `i` on:
/// `key=value` pairs joined with `&`, in stored order.
pub open spec fn query_string_from(entries: Seq<(String, String)>, i: int) -> Seq<char>
    decreases entries.len() - i,
{
    if i < 0 || i >= entries.len() {
        Seq::empty()
    } else {
        form_encoded(entries[i].0@, 0) + seq!['='] + form_encoded(entries[i].1@, 0) + (if i
            < entries.len() - 1 {
            seq!['&']
        } else {
            Seq::empty()
        }) + query_string_from(entries, i + 1)
    }
}

/// The canonical key of a request: the path, then `?` and the encoded
/// query pairs when there are any.
pub open spec fn full_url_spec(path: Seq<char>, query: Option<Seq<(String, String)>>) -> Seq<
    char,
> {
    match query {
        Option::None => path,
        Option::Some(es) => if es.len() == 0 {
            path
        } else {
            path + seq!['?'] + query_string_from(es, 0)
        },
    }
}

/// Rebuilds the canonical key from the path and the query parameters.
#[verifier::loop_isolation(false)]
pub fn reconstruct_full_url(path: &str, query_params: &Option<Params>) -> (r: String)
    ensures
        r@ == full_url_spec(
            path@,
            match query_params {
                Some(p) => Some(p.entry_seq()),
                None => None::<Seq<(String, String)>>,
            },
        ),
{
    let params = match query_params {
        Some(p) => p,
        None => {
            return path.to_owned();
        },
    };
    let entries = params.entries();
    let n = entries.len();
    if n == 0 {
        return path.to_owned();
    }
    let mut out: Vec<char> = Vec::new();
    push_chars(&mut out, path);
    out.push('?');
    let ghost base = out@;
    let mut i: usize = 0;
    while i < n
        invariant
            0 <= i <= n,
            n == entries@.len(),
            out@ + query_string_from(entries@, i as int) == base + query_string_from(entries@, 0),
        decreases n - i,
    {
        push_form_encoded(entries[i].0.as_str(), &mut out);
        out.push('=');
        push_form_encoded(entries[i].1.as_str(), &mut out);
        if i < n - 1 {
            out.push('&');
        }
        proof {
            assert(out@ + query_string_from(entries@, i + 1) =~= base + query_string_from(
                entries@,
                0,
            ));
        }
        i += 1;
    }
    proof {
        assert(query_string_from(entries@, n as int) =~= Seq::<char>::empty());
        assert(out@ =~= path@ + seq!['?'] + query_string_from(entries@, 0));
    }
    chars_string(&out)
}

pub open spec fn api_seg() -> Seq<char> {
    seq!['a', 'p', 'i']
}

/// A version segment: `v` followed by one or more digits.
pub open spec fn is_version_seg(seg: Seq<char>) -> bool {
    seg.len() >= 2 && seg[0] == 'v' && (forall|k: int| 1 <= k < seg.len() ==> is_digit_char(#[trigger] seg[k]))
}

/// A path segment that survives filtering: non-empty, not `api`, not a
/// version tag.
pub open spec fn seg_kept(seg: Seq<char>) -> bool {
    seg.len() > 0 && seg != api_seg() && !is_version_seg(seg)
}

/// Folds the query pairs of `q[i..]` into `m`: pieces split at `&`, each
/// non-empty piece split at its first `=` and form-decoded.
pub open spec fn insert_query_from(m: Map<Seq<char>, Seq<char>>, q: Seq<char>, i: int) -> Map<
    Seq<char>,
    Seq<char>,
>
    decreases q.len() - i,
{
    if i < 0 || i > q.len() {
        m
    } else {
        let e0 = find_until(q, '&', i, q.len() as int);
        let e = if e0 < i {
            i
        } else if e0 > q.len() {
            q.len() as int
        } else {
            e0
        };
        let m2 = if e == i {
            m
        } else {
            let eq = find_until(q, '=', i, e);
            let key = form_decoded(q, i, eq);
            let val = if eq < e {
                form_decoded(q, eq + 1, e)
            } else {
                form_decoded(q, e, e)
            };
            m.insert(key, val)
        };
        if e >= q.len() {
            m2
        } else {
            insert_query_from(m2, q, e + 1)
        }
    }
}

/// Folds the kept path segments of `p[i..]` into `m`, paired left to right;
/// `pending` carries a key still waiting for its value, and an odd final
/// segment is dropped.
pub open spec fn insert_path_from(
    m: Map<Seq<char>, Seq<char>>,
    p: Seq<char>,
    i: int,
    pending: Option<Seq<char>>,
) -> Map<Seq<char>, Seq<char>>
    decreases p.len() - i,
{
    if i < 0 || i > p.len() {
        m
    } else {
        let e0 = find_until(p, '/', i, p.len() as int);
        let e = if e0 < i {
            i
        } else if e0 > p.len() {
            p.len() as int
        } else {
            e0
        };
        let seg = p.subrange(i, e);
        let (m2, pend2): (Map<Seq<char>, Seq<char>>, Option<Seq<char>>) = if seg_kept(seg) {
            match pending {
                Option::None => (m, Some(seg)),
                Option::Some(k) => (m.insert(k, seg), None),
            }
        } else {
            (m, pending)
        };
        if e >= p.len() {
            m2
        } else {
            insert_path_from(m2, p, e + 1, pend2)
        }
    }
}

/// The parameters a request URL yields: query pairs first, then kept path
/// segments paired left to right; path pairs overwrite query pairs of the
/// same name. A fragment is ignored.
pub open spec fn params_of_request(url: Seq<char>) -> Map<Seq<char>, Seq<char>> {
    let hash = find_until(url, '#', 0, url.len() as int);
    let nofrag = url.subrange(0, hash);
    let qm = find_until(nofrag, '?', 0, nofrag.len() as int);
    let m1 = if qm < nofrag.len() {
        insert_query_from(Map::empty(), nofrag, qm + 1)
    } else {
        Map::empty()
    };
    insert_path_from(m1, nofrag.subrange(0, qm), 0, None)
}

/// Inserting into the table inserts the value's text into the mapping.
proof fn lemma_param_map_insert(m: Map<Seq<char>, String>, k: Seq<char>, v: String)
    ensures
        param_map(m.insert(k, v)) == param_map(m).insert(k, v@),
{
    assert(param_map(m.insert(k, v)) =~= param_map(m).insert(k, v@));
}

fn seg_is_kept(v: &Vec<char>, from: usize, end: usize) -> (r: bool)
    requires
        from <= end <= v@.len(),
    ensures
        r == seg_kept(v@.subrange(from as int, end as int)),
{
    let ghost seg = v@.subrange(from as int, end as int);
    if end == from {
        return false;
    }
    let api = str_chars("api");
    proof {
        reveal_strlit("api");
        assert("api"@ =~= api_seg());
    }
    if crate::chars::chars_start_with(v, &api, from) && end - from == 3 {
        proof {
            assert(seg =~= api_seg());
        }
        return false;
    }
    proof {
        if seg == api_seg() {
            assert(seg.len() == 3);
            assert(crate::chars::match_at(v@, api_seg(), from as int));
        }
    }
    if v[from] == 'v' && end - from >= 2 {
        let mut k: usize = from + 1;
        while k < end && is_digit(v[k])
            invariant
                from + 1 <= k <= end <= v@.len(),
                forall|j: int| from + 1 <= j < k ==> is_digit_char(#[trigger] v@[j]),
            decreases end - k,
        {
            k += 1;
        }
        if k == end {
            proof {
                assert forall|j: int| 1 <= j < seg.len() implies is_digit_char(#[trigger] seg[j]) by {
                    assert(seg[j] == v@[from + j]);
                }
                assert(is_version_seg(seg));
            }
            return false;
        }
        proof {
            assert(!is_digit_char(v@[k as int]));
            assert(seg[k - from] == v@[k as int]);
            assert(!is_version_seg(seg));
        }
        return true;
    }
    proof {
        assert(seg[0] == v@[from as int]);
        if seg.len() >= 2 && seg[0] == 'v' {
            assert(v@[from as int] == 'v' && end - from >= 2);
        }
    }
    true
}

/// Extracts the parameters from a request URL.
pub fn get_params_from_request(path: &str) -> (r: Params)
    ensures
        r.wf(),
        param_map(r@) == params_of_request(path@),
{
    let url = str_chars(path);
    let n = url.len();
    let hash = find_char(&url, '#', 0, n);
    proof {
        lemma_find_until(url@, '#', 0, n as int);
    }
    let nofrag = sub_chars(&url, 0, hash);
    let m = nofrag.len();
    let qm = find_char(&nofrag, '?', 0, m);
    proof {
        lemma_find_until(nofrag@, '?', 0, m as int);
    }
    let mut params: Params = StrTable::new();
    proof {
        assert(param_map(params@) =~= Map::<Seq<char>, Seq<char>>::empty());
    }
    if qm < m {
        let mut i: usize = qm + 1;
        loop
            invariant
                qm + 1 <= i <= m + 1,
                i <= m + 1,
                m == nofrag@.len(),
                params.wf(),
                insert_query_from(Map::empty(), nofrag@, qm + 1) == insert_query_from(
                    param_map(params@),
                    nofrag@,
                    i as int,
                ),
            ensures
                params.wf(),
                param_map(params@) == insert_query_from(Map::empty(), nofrag@, qm + 1),
            decreases m + 1 - i,
        {
            if i > m {
                proof {
                    assert(insert_query_from(param_map(params@), nofrag@, i as int) == param_map(
                        params@,
                    ));
                }
                break ;
            }
            let e = find_char(&nofrag, '&', i, m);
            proof {
                lemma_find_until(nofrag@, '&', i as int, m as int);
            }
            let ghost pm0 = param_map(params@);
            if e > i {
                let eq = find_char(&nofrag, '=', i, e);
                proof {
                    lemma_find_until(nofrag@, '=', i as int, e as int);
                }
                let key = form_decode(&nofrag, i, eq);
                let val = if eq < e {
                    form_decode(&nofrag, eq + 1, e)
                } else {
                    form_decode(&nofrag, e, e)
                };
                let ghost valv = val@;
                proof {
                    lemma_param_map_insert(params@, key@, val);
                }
                params.insert(key, val);
                proof {
                    assert(param_map(params@) == pm0.insert(
                        form_decoded(nofrag@, i as int, eq as int),
                        valv,
                    ));
                }
            }
            proof {
                assert(insert_query_from(pm0, nofrag@, i as int) == if e >= m {
                    param_map(params@)
                } else {
                    insert_query_from(param_map(params@), nofrag@, e + 1)
                });
            }
            if e >= m {
                break ;
            }
            i = e + 1;
        }
    }
    let plen = qm;
    proof {
        assert(params_of_request(path@) == insert_path_from(
            param_map(params@),
            nofrag@.subrange(0, plen as int),
            0,
            None::<Seq<char>>,
        ));
    }
    let mut pending_key: Option<String> = None;
    let mut i: usize = 0;
    loop
        invariant_except_break
            params_of_request(path@) == insert_path_from(
                param_map(params@),
                nofrag@.subrange(0, plen as int),
                i as int,
                match pending_key {
                    Some(k) => Some(k@),
                    None => None::<Seq<char>>,
                },
            ),
        invariant
            0 <= i <= plen + 1,
            plen <= m,
            m == nofrag@.len(),
            params.wf(),
        ensures
            params.wf(),
            param_map(params@) == params_of_request(path@),
        decreases plen + 1 - i,
    {
        let ghost ppart = nofrag@.subrange(0, plen as int);
        if i > plen {
            proof {
                assert(insert_path_from(
                    param_map(params@),
                    ppart,
                    i as int,
                    match pending_key {
                        Some(k) => Some(k@),
                        None => None::<Seq<char>>,
                    },
                ) == param_map(params@));
            }
            break ;
        }
        let e = find_char(&nofrag, '/', i, plen);
        proof {
            lemma_find_until(nofrag@, '/', i as int, plen as int);
            lemma_find_until_subrange(nofrag@, '/', i as int, plen as int);
        }
        let ghost pm0 = param_map(params@);
        let ghost pend0: Option<Seq<char>> = match &pending_key {
            Some(k) => Some(k@),
            None => None,
        };
        proof {
            assert(nofrag@.subrange(i as int, e as int) =~= ppart.subrange(i as int, e as int));
        }
        if seg_is_kept(&nofrag, i, e) {
            let seg = chars_string(&sub_chars(&nofrag, i, e));
            match pending_key {
                None => {
                    pending_key = Some(seg);
                },
                Some(k) => {
                    proof {
                        lemma_param_map_insert(params@, k@, seg);
                    }
                    params.insert(k, seg);
                    pending_key = None;
                },
            }
        }
        proof {
            assert(insert_path_from(pm0, ppart, i as int, pend0) == if e >= plen {
                param_map(params@)
            } else {
                insert_path_from(
                    param_map(params@),
                    ppart,
                    e + 1,
                    match pending_key {
                        Some(k) => Some(k@),
                        None => None::<Seq<char>>,
                    },
                )
            });
        }
        if e >= plen {
            break ;
        }
        i = e + 1;
    }
    params
}

/// `find_until` agrees between a prefix and the whole.
proof fn lemma_find_until_subrange(s: Seq<char>, c: char, i: int, end: int)
    requires
        0 <= i <= end <= s.len(),
    ensures
        find_until(s.subrange(0, end), c, i, end) == find_until(s, c, i, end),
    decreases end - i,
{
    if i < end {
        assert(s.subrange(0, end)[i] == s[i]);
        if s[i] != c {
            lemma_find_until_subrange(s, c, i + 1, end);
        }
    }
}

/// What a JSON body value contributes as a parameter: a string its text,
/// anything else its JSON rendering.
pub open spec fn body_value_text(v: JsonValue) -> Seq<char> {
    match v {
        JsonValue::Str(s) => s@,
        _ => text_of(v),
    }
}

/// Folds the fields of a body object into a parameter map, in order.
pub open spec fn insert_body_fields(
    m: Map<Seq<char>, Seq<char>>,
    fs: Seq<(String, JsonValue)>,
    i: int,
) -> Map<Seq<char>, Seq<char>>
    decreases fs.len() - i,
{
    if i < 0 || i >= fs.len() {
        m
    } else {
        insert_body_fields(m.insert(fs[i].0@, body_value_text(fs[i].1)), fs, i + 1)
    }
}

/// The parameters a request body yields: the fields of its JSON object,
/// with non-string values rendered as JSON; an unreadable or non-object
/// body yields none.
pub open spec fn body_params_of(b: Seq<u8>) -> Map<Seq<char>, Seq<char>> {
    match utf8_decode(b) {
        Option::None => Map::empty(),
        Option::Some(t) => match json_parse(t) {
            Option::Some(v) => match v {
                JsonValue::Obj(fs) => insert_body_fields(Map::empty(), fs@, 0),
                _ => Map::empty(),
            },
            _ => Map::empty(),
        },
    }
}

/// Extracts the parameters from a request body.
#[verifier::loop_isolation(false)]
pub fn get_body_from_request(body: Vec<u8>) -> (r: Params)
    ensures
        r.wf(),
        param_map(r@) == body_params_of(body@),
{
    let ghost bview = body@;
    let mut params: Params = StrTable::new();
    proof {
        assert(param_map(params@) =~= Map::<Seq<char>, Seq<char>>::empty());
    }
    let text = match bytes_to_string(body) {
        Some(t) => t,
        None => {
            return params;
        },
    };
    let v = match crate::json::parse_json(text.as_str()) {
        Some(v) => v,
        None => {
            return params;
        },
    };
    let fields = match &v {
        JsonValue::Obj(fs) => fs,
        _ => {
            return params;
        },
    };
    let n = fields.len();
    let mut i: usize = 0;
    while i < n
        invariant
            0 <= i <= n,
            n == fields@.len(),
            params.wf(),
            body_params_of(bview) == insert_body_fields(param_map(params@), fields@, i as int),
        decreases n - i,
    {
        let key = fields[i].0.clone();
        let value = match &fields[i].1 {
            JsonValue::Str(s) => s.clone(),
            other => to_json_string(other),
        };
        proof {
            assert(value@ == body_value_text(fields@[i as int].1));
        }
        proof {
            lemma_param_map_insert(params@, fields@[i as int].0@, value);
        }
        params.insert(key, value);
        i += 1;
    }
    proof {
        assert(insert_body_fields(param_map(params@), fields@, n as int) == param_map(params@));
    }
    params
}

} // verus!
