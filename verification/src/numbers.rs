//! Decimal rendering and parsing, with exact specifications. The admin
//! surface reads status codes, delays and rate budgets from decimal text,
//! and the list rendering writes them back out.

use vstd::prelude::*;
use crate::chars::{is_digit, is_digit_char, chars_string};

verus! {

pub open spec fn dec_digit(n: int) -> char {
    if n == 0 { '0' } else if n == 1 { '1' } else if n == 2 { '2' } else if n == 3 { '3' }
    else if n == 4 { '4' } else if n == 5 { '5' } else if n == 6 { '6' } else if n == 7 { '7' }
    else if n == 8 { '8' } else { '9' }
}

/// The decimal text of `n`: most significant digit first, no sign, no
/// leading zeros but for `0` itself.
pub open spec fn dec_rep(n: nat) -> Seq<char>
    decreases n,
{
    if n < 10 {
        seq![dec_digit(n as int)]
    } else {
        dec_rep(n / 10) + seq![dec_digit((n % 10) as int)]
    }
}

pub open spec fn digit_val(c: char) -> int {
    c as int - '0' as int
}

/// The number the digit text denotes.
pub open spec fn dec_val(s: Seq<char>) -> int
    decreases s.len(),
{
    if s.len() == 0 {
        0
    } else {
        dec_val(s.drop_last()) * 10 + digit_val(s.last())
    }
}

pub open spec fn all_digits(s: Seq<char>) -> bool {
    forall|i: int| 0 <= i < s.len() ==> is_digit_char(#[trigger] s[i])
}

/// Digit text after an optional leading plus sign, as `str::parse` takes it.
pub open spec fn strip_plus(s: Seq<char>) -> Seq<char> {
    if s.len() > 0 && s[0] == '+' {
        s.drop_first()
    } else {
        s
    }
}

/// What `str::parse::<u64>` accepts and returns: an optional plus sign, then
/// one or more digits, denoting a value that fits.
pub open spec fn parse_u64_spec(s: Seq<char>) -> Option<u64> {
    let d = strip_plus(s);
    if d.len() > 0 && all_digits(d) && dec_val(d) <= u64::MAX {
        Some(dec_val(d) as u64)
    } else {
        None
    }
}

pub open spec fn parse_u16_spec(s: Seq<char>) -> Option<u16> {
    let d = strip_plus(s);
    if d.len() > 0 && all_digits(d) && dec_val(d) <= u16::MAX {
        Some(dec_val(d) as u16)
    } else {
        None
    }
}

pub open spec fn parse_usize_spec(s: Seq<char>) -> Option<usize> {
    let d = strip_plus(s);
    if d.len() > 0 && all_digits(d) && dec_val(d) <= usize::MAX {
        Some(dec_val(d) as usize)
    } else {
        None
    }
}

/// What `str::parse::<bool>` accepts: exactly `true` or `false`.
pub open spec fn parse_bool_spec(s: Seq<char>) -> Option<bool> {
    if s == seq!['t', 'r', 'u', 'e'] {
        Some(true)
    } else if s == seq!['f', 'a', 'l', 's', 'e'] {
        Some(false)
    } else {
        None
    }
}

fn dec_char(d: u64) -> (c: char)
    requires
        d < 10,
    ensures
        c == dec_digit(d as int),
{
    if d == 0 { '0' } else if d == 1 { '1' } else if d == 2 { '2' } else if d == 3 { '3' }
    else if d == 4 { '4' } else if d == 5 { '5' } else if d == 6 { '6' } else if d == 7 { '7' }
    else if d == 8 { '8' } else { '9' }
}

/// Renders `n` in decimal.
pub fn u64_to_string(n: u64) -> (r: String)
    ensures
        r@ == dec_rep(n as nat),
{
    let mut acc: Vec<char> = Vec::new();
    let mut m: u64 = n;
    loop
        invariant_except_break
            acc@.len() == 0 ==> m == n,
            acc@.len() > 0 ==> m > 0 && dec_rep(n as nat) == dec_rep(m as nat) + acc@,
        ensures
            acc@ == dec_rep(n as nat),
        decreases m,
    {
        let ghost acc0 = acc@;
        let ghost m0 = m;
        let d = m % 10;
        let m2 = m / 10;
        acc.insert(0, dec_char(d));
        proof {
            assert(acc@ =~= seq![dec_digit(d as int)] + acc0);
        }
        if m2 == 0 {
            proof {
                assert(m0 < 10);
                assert(dec_rep(m0 as nat) == seq![dec_digit(m0 as int)]);
                if acc0.len() == 0 {
                    assert(acc@ =~= dec_rep(n as nat));
                } else {
                    assert(dec_rep(n as nat) =~= seq![dec_digit(m0 as int)] + acc0);
                    assert(acc@ =~= dec_rep(n as nat));
                }
            }
            break;
        }
        proof {
            assert(m0 >= 10);
            assert(dec_rep(m0 as nat) == dec_rep((m0 / 10) as nat) + seq![dec_digit((m0 % 10) as int)]);
            if acc0.len() == 0 {
                assert(dec_rep(n as nat) =~= dec_rep(m2 as nat) + acc@);
            } else {
                assert(dec_rep(n as nat) =~= dec_rep(m2 as nat) + acc@);
            }
        }
        m = m2;
    }
    chars_string(&acc)
}

proof fn lemma_dec_val_nonneg(s: Seq<char>)
    requires
        all_digits(s),
    ensures
        dec_val(s) >= 0,
    decreases s.len(),
{
    if s.len() > 0 {
        assert(all_digits(s.drop_last()));
        lemma_dec_val_nonneg(s.drop_last());
        assert(is_digit_char(s[s.len() - 1]));
    }
}

proof fn lemma_dec_val_mono(s: Seq<char>, j: int)
    requires
        all_digits(s),
        0 <= j <= s.len(),
    ensures
        dec_val(s) >= dec_val(s.subrange(0, j)),
    decreases s.len() - j,
{
    if j < s.len() {
        lemma_dec_val_mono(s, j + 1);
        let p = s.subrange(0, j + 1);
        assert(p.drop_last() =~= s.subrange(0, j));
        assert(all_digits(s.subrange(0, j)));
        lemma_dec_val_nonneg(s.subrange(0, j));
        assert(is_digit_char(s[j]));
        assert(dec_val(p) == dec_val(s.subrange(0, j)) * 10 + digit_val(s[j]));
        assert(dec_val(s.subrange(0, j)) * 10 >= dec_val(s.subrange(0, j)));
    } else {
        assert(s.subrange(0, j) =~= s);
    }
}

/// Reads an unsigned decimal, as `str::parse::<u64>` does.
pub fn parse_u64(s: &Vec<char>) -> (r: Option<u64>)
    ensures
        r == parse_u64_spec(s@),
{
    let ghost d = strip_plus(s@);
    let start: usize = if s.len() > 0 && s[0] == '+' {
        1
    } else {
        0
    };
    proof {
        assert(d =~= s@.subrange(start as int, s@.len() as int));
    }
    if start == s.len() {
        return None;
    }
    let mut i: usize = start;
    let mut acc: u64 = 0;
    while i < s.len()
        invariant
            start <= i <= s@.len(),
            start < s@.len(),
            d == strip_plus(s@),
            d == s@.subrange(start as int, s@.len() as int),
            all_digits(d.subrange(0, i - start)),
            acc == dec_val(d.subrange(0, i - start)),
        decreases s@.len() - i,
    {
        let c = s[i];
        proof {
            assert(d[i - start] == s@[i as int]);
        }
        if !is_digit(c) {
            proof {
                assert(0 <= i - start < d.len());
                assert(!is_digit_char(d[i - start]));
                assert(!all_digits(d));
            }
            return None;
        }
        let dv: u64 = (c as u32 - 48) as u64;
        proof {
            assert(dv == digit_val(c));
            assert(d.subrange(0, i - start + 1).drop_last() =~= d.subrange(0, i - start));
            assert(d.subrange(0, i - start + 1).last() == c);
            assert(all_digits(d.subrange(0, i - start + 1)));
            assert(dec_val(d.subrange(0, i - start + 1)) == acc * 10 + dv);
        }
        let lim: u64 = (u64::MAX - dv) / 10;
        if acc > lim {
            proof {
                assert(acc * 10 + dv > u64::MAX) by (nonlinear_arith)
                    requires
                        acc > (u64::MAX - dv) / 10,
                        dv <= 9,
                ;
                if all_digits(d) {
                    lemma_dec_val_mono(d, i - start + 1);
                    assert(dec_val(d) > u64::MAX);
                }
            }
            return None;
        }
        proof {
            assert(acc * 10 + dv <= u64::MAX) by (nonlinear_arith)
                requires
                    acc <= (u64::MAX - dv) / 10,
                    dv <= 9,
            ;
        }
        acc = acc * 10 + dv;
        i += 1;
    }
    proof {
        assert(d.subrange(0, s@.len() - start) =~= d);
    }
    Some(acc)
}

/// Reads an unsigned decimal, as `str::parse::<u16>` does.
pub fn parse_u16(s: &Vec<char>) -> (r: Option<u16>)
    ensures
        r == parse_u16_spec(s@),
{
    let ghost d = strip_plus(s@);
    match parse_u64(s) {
        Some(v) => {
            proof {
                assert(d.len() > 0 && all_digits(d) && dec_val(d) <= u64::MAX);
                lemma_dec_val_nonneg(d);
                assert(v == dec_val(d));
            }
            if v <= 65535 {
                Some(v as u16)
            } else {
                None
            }
        },
        None => {
            proof {
                assert(!(d.len() > 0 && all_digits(d) && dec_val(d) <= u64::MAX));
                if d.len() > 0 && all_digits(d) {
                    assert(dec_val(d) > u64::MAX);
                    assert(dec_val(d) > u16::MAX);
                }
            }
            None
        },
    }
}

/// Reads an unsigned decimal, as `str::parse::<usize>` does.
pub fn parse_usize(s: &Vec<char>) -> (r: Option<usize>)
    ensures
        r == parse_usize_spec(s@),
{
    let ghost d = strip_plus(s@);
    match parse_u64(s) {
        Some(v) => {
            proof {
                assert(d.len() > 0 && all_digits(d) && dec_val(d) <= u64::MAX);
                lemma_dec_val_nonneg(d);
                assert(v == dec_val(d));
            }
            if v <= usize::MAX as u64 {
                Some(v as usize)
            } else {
                None
            }
        },
        None => {
            proof {
                assert(!(d.len() > 0 && all_digits(d) && dec_val(d) <= u64::MAX));
                if d.len() > 0 && all_digits(d) {
                    assert(dec_val(d) > u64::MAX);
                    assert(dec_val(d) > usize::MAX);
                }
            }
            None
        },
    }
}

/// Reads a boolean, as `str::parse::<bool>` does.
pub fn parse_bool(s: &Vec<char>) -> (r: Option<bool>)
    ensures
        r == parse_bool_spec(s@),
{
    if s.len() == 4 && s[0] == 't' && s[1] == 'r' && s[2] == 'u' && s[3] == 'e' {
        proof {
            assert(s@ =~= seq!['t', 'r', 'u', 'e']);
        }
        Some(true)
    } else if s.len() == 5 && s[0] == 'f' && s[1] == 'a' && s[2] == 'l' && s[3] == 's' && s[4] == 'e' {
        proof {
            assert(s@ =~= seq!['f', 'a', 'l', 's', 'e']);
        }
        Some(false)
    } else {
        proof {
            if s@ == seq!['t', 'r', 'u', 'e'] {
                assert(s@.len() == 4 && s@[0] == 't' && s@[1] == 'r' && s@[2] == 'u' && s@[3] == 'e');
            }
            if s@ == seq!['f', 'a', 'l', 's', 'e'] {
                assert(s@.len() == 5);
            }
        }
        None
    }
}

} // verus!
