//! Byte- and string-level utilities: substring search, replacement, decimal
//! digits, and filename sanitization.
//!
//! The manifest parser and the path builders work on these.  Specifications
//! are given over `Seq<u8>` (for wire data) and `Seq<char>` (for paths).

use vstd::prelude::*;
use vstd::string::StrSliceExecFns;
use vstd::string::StringExecFns;

verus! {

/// ASCII code of the double quote character.
pub const QUOTE: u8 = 34;

/// ASCII code of the ampersand.
pub const AMPERSAND: u8 = 38;

pub open spec fn is_ascii_digit(b: u8) -> bool {
    48 <= b <= 57
}

pub open spec fn is_ascii_space(b: u8) -> bool {
    b == 32 || b == 9 || b == 10 || b == 13
}

/// Index of the first match of `p` in `h` at or after `from`, scanning left
/// to right.
pub open spec fn find_at(h: Seq<u8>, p: Seq<u8>, from: int) -> Option<int>
    decreases h.len() + 1 - from,
{
    if from < 0 || from + p.len() > h.len() {
        None
    } else if h.subrange(from, from + p.len()) == p {
        Some(from)
    } else {
        find_at(h, p, from + 1)
    }
}

/// Every occurrence of `pat` in `s` replaced by `repl`, left to right,
/// without rescanning the replacement.
pub open spec fn replace_all(s: Seq<u8>, pat: Seq<u8>, repl: Seq<u8>) -> Seq<u8>
    recommends
        pat.len() >= 1,
    decreases s.len(),
{
    if pat.len() == 0 || s.len() < pat.len() {
        s
    } else if s.subrange(0, pat.len() as int) == pat {
        repl + replace_all(s.subrange(pat.len() as int, s.len() as int), pat, repl)
    } else {
        seq![s[0]] + replace_all(s.subrange(1, s.len() as int), pat, repl)
    }
}

/// Decimal digits (ASCII) of `n`, most significant first.
pub open spec fn dec_rep(n: nat) -> Seq<u8>
    decreases n,
{
    if n < 10 {
        seq![(48 + n) as u8]
    } else {
        dec_rep(n / 10).push((48 + n % 10) as u8)
    }
}

/// Decimal digits of `n` as characters, most significant first.
pub open spec fn dec_chars(n: nat) -> Seq<char>
    decreases n,
{
    if n < 10 {
        seq![((48 + n) as u8) as char]
    } else {
        dec_chars(n / 10).push(((48 + n % 10) as u8) as char)
    }
}

/// Numeric value of a sequence of ASCII digits, most significant first.
pub open spec fn dec_value(s: Seq<u8>) -> nat
    decreases s.len(),
{
    if s.len() == 0 {
        0
    } else {
        dec_value(s.drop_last()) * 10 + if is_ascii_digit(s.last()) {
            (s.last() - 48) as nat
        } else {
            0
        }
    }
}

pub open spec fn all_ascii_digits(s: Seq<u8>) -> bool {
    forall|i: int| 0 <= i < s.len() ==> is_ascii_digit(#[trigger] s[i])
}

/// True when `p` occurs in `h` starting at index `i`.
pub open spec fn matches_at(h: Seq<u8>, p: Seq<u8>, i: int) -> bool {
    0 <= i && i + p.len() <= h.len() && h.subrange(i, i + p.len()) == p
}

pub proof fn lemma_find_at_some(h: Seq<u8>, p: Seq<u8>, from: int, i: int)
    requires
        find_at(h, p, from) == Some(i),
    ensures
        from <= i,
        matches_at(h, p, i),
        forall|j: int| from <= j < i ==> !matches_at(h, p, j),
    decreases h.len() + 1 - from,
{
    if !(from < 0 || from + p.len() > h.len()) {
        if h.subrange(from, from + p.len()) == p {
        } else {
            lemma_find_at_some(h, p, from + 1, i);
        }
    }
}

/// First index at or after `from` where `p` occurs in `h`, or `None`.
#[verifier::loop_isolation(false)]
pub fn find_sub(h: &Vec<u8>, p: &Vec<u8>, from: usize) -> (r: Option<usize>)
    requires
        p@.len() >= 1,
        from <= h@.len(),
    ensures
        match r {
            Some(i) => find_at(h@, p@, from as int) == Some(i as int),
            None => find_at(h@, p@, from as int) is None,
        },
{
    if h.len() < p.len() || from > h.len() - p.len() {
        proof {
            lemma_find_at_range_none(h@, p@, from as int);
        }
        return None;
    }
    let mut i: usize = from;
    let last: usize = h.len() - p.len();
    while i <= last
        invariant
            from <= i <= last + 1,
            p@.len() >= 1,
            last + p@.len() == h@.len(),
            find_at(h@, p@, from as int) == find_at(h@, p@, i as int),
        decreases last + 1 - i,
    {
        if match_here(h, p, i) {
            return Some(i);
        }
        proof {
            assert(h@.subrange(i as int, i + p@.len()) != p@);
        }
        i = i + 1;
    }
    proof {
        lemma_find_at_range_none(h@, p@, i as int);
    }
    None
}

proof fn lemma_find_at_range_none(h: Seq<u8>, p: Seq<u8>, from: int)
    requires
        from + p.len() > h.len() || from < 0,
    ensures
        find_at(h, p, from) is None,
{
}

/// Whether `p` occurs in `h` at exactly position `i`.
#[verifier::loop_isolation(false)]
fn match_here(h: &Vec<u8>, p: &Vec<u8>, i: usize) -> (r: bool)
    requires
        i + p@.len() <= h@.len(),
    ensures
        r == matches_at(h@, p@, i as int),
{
    let len_bound: usize = h.len();
    assert(len_bound == h@.len());
    let mut k: usize = 0;
    while k < p.len()
        invariant
            0 <= k <= p@.len(),
            i + p@.len() <= h@.len(),
            forall|m: int| 0 <= m < k ==> h@[i + m] == p@[m],
        decreases p@.len() - k,
    {
        if h[i + k] != p[k] {
            proof {
                assert(h@.subrange(i as int, i + p@.len())[k as int] == h@[i + k]);
            }
            return false;
        }
        k = k + 1;
    }
    proof {
        assert(h@.subrange(i as int, i + p@.len()) =~= p@);
    }
    true
}

/// Every occurrence of `pat` in `s` replaced by `repl`.
#[verifier::loop_isolation(false)]
pub fn replace_all_bytes(s: &Vec<u8>, pat: &Vec<u8>, repl: &Vec<u8>) -> (r: Vec<u8>)
    requires
        pat@.len() >= 1,
    ensures
        r@ == replace_all(s@, pat@, repl@),
{
    let mut out: Vec<u8> = Vec::new();
    let mut pos: usize = 0;
    proof {
        assert(s@.subrange(0, s@.len() as int) =~= s@);
        assert(out@ + replace_all(s@, pat@, repl@) =~= replace_all(s@, pat@, repl@));
    }
    while pos < s.len()
        invariant
            0 <= pos <= s@.len(),
            pat@.len() >= 1,
            replace_all(s@, pat@, repl@) == out@ + replace_all(
                s@.subrange(pos as int, s@.len() as int),
                pat@,
                repl@,
            ),
        decreases s@.len() - pos,
    {
        let ghost rest = s@.subrange(pos as int, s@.len() as int);
        if pat.len() <= s.len() - pos && match_here(s, pat, pos) {
            proof {
                assert(rest.subrange(0, pat@.len() as int) =~= s@.subrange(
                    pos as int,
                    pos + pat@.len(),
                ));
                assert(rest.subrange(pat@.len() as int, rest.len() as int) =~= s@.subrange(
                    pos + pat@.len(),
                    s@.len() as int,
                ));
            }
            out.extend_from_slice(repl.as_slice());
            pos = pos + pat.len();
        } else {
            proof {
                if pat@.len() <= s@.len() - pos {
                    assert(rest.subrange(0, pat@.len() as int) =~= s@.subrange(
                        pos as int,
                        pos + pat@.len(),
                    ));
                }
                assert(rest =~= seq![rest[0]] + rest.subrange(1, rest.len() as int));
                assert(rest.subrange(1, rest.len() as int) =~= s@.subrange(
                    pos + 1,
                    s@.len() as int,
                ));
                assert(seq![rest[0]] =~= seq![s@[pos as int]]);
            }
            out.push(s[pos]);
            pos = pos + 1;
        }
    }
    proof {
        assert(s@.subrange(pos as int, s@.len() as int) =~= Seq::<u8>::empty());
        assert(replace_all(Seq::<u8>::empty(), pat@, repl@) =~= Seq::<u8>::empty());
        assert(out@ =~= out@ + Seq::<u8>::empty());
    }
    out
}

/// Decimal digits of `n`, most significant first, as ASCII bytes.
pub fn u64_to_dec_bytes(n: u64) -> (r: Vec<u8>)
    ensures
        r@ == dec_rep(n as nat),
        r@.len() >= 1,
    decreases n,
{
    if n < 10 {
        let mut v: Vec<u8> = Vec::new();
        v.push(48 + n as u8);
        proof {
            assert(v@ =~= dec_rep(n as nat));
        }
        v
    } else {
        let mut v = u64_to_dec_bytes(n / 10);
        v.push(48 + (n % 10) as u8);
        v
    }
}

/// The single-character string for decimal digit `d`.
fn digit_str(d: u64) -> (r: &'static str)
    requires
        d < 10,
    ensures
        r@ =~= seq![((48 + d) as u8) as char],
{
    proof {
        reveal_strlit("0");
        reveal_strlit("1");
        reveal_strlit("2");
        reveal_strlit("3");
        reveal_strlit("4");
        reveal_strlit("5");
        reveal_strlit("6");
        reveal_strlit("7");
        reveal_strlit("8");
        reveal_strlit("9");
    }
    if d == 0 {
        "0"
    } else if d == 1 {
        "1"
    } else if d == 2 {
        "2"
    } else if d == 3 {
        "3"
    } else if d == 4 {
        "4"
    } else if d == 5 {
        "5"
    } else if d == 6 {
        "6"
    } else if d == 7 {
        "7"
    } else if d == 8 {
        "8"
    } else {
        "9"
    }
}

/// `n` written in decimal, most significant digit first.
pub fn u64_to_string(n: u64) -> (r: String)
    ensures
        r@ == dec_chars(n as nat),
    decreases n,
{
    if n < 10 {
        let s = digit_str(n).to_owned();
        proof {
            assert(s@ =~= dec_chars(n as nat));
        }
        s
    } else {
        let mut s = u64_to_string(n / 10);
        s.append(digit_str(n % 10));
        proof {
            assert(s@ =~= dec_chars(n as nat));
        }
        s
    }
}

/// The value of a digit sequence only grows as more digits follow.
pub proof fn lemma_dec_value_prefix_le(s: Seq<u8>, j: int)
    requires
        0 <= j <= s.len(),
    ensures
        dec_value(s.subrange(0, j)) <= dec_value(s),
    decreases s.len() - j,
{
    if j == s.len() {
        assert(s.subrange(0, j) =~= s);
    } else {
        lemma_dec_value_prefix_le(s, j + 1);
        let p = s.subrange(0, j + 1);
        assert(p.drop_last() =~= s.subrange(0, j));
        assert(dec_value(p) >= dec_value(p.drop_last())) by {
            assert(dec_value(p) == dec_value(p.drop_last()) * 10 + if is_ascii_digit(p.last()) {
                (p.last() - 48) as nat
            } else {
                0
            });
            assert(dec_value(p.drop_last()) * 10 >= dec_value(p.drop_last())) by (nonlinear_arith);
        }
    }
}

/// Parse a non-empty run of ASCII digits as a decimal number.  Returns `None`
/// when the input is empty, holds a non-digit, or the value does not fit in a
/// `u64`.
#[verifier::loop_isolation(false)]
pub fn parse_u64_dec(s: &Vec<u8>) -> (r: Option<u64>)
    ensures
        match r {
            Some(v) => s@.len() >= 1 && all_ascii_digits(s@) && v == dec_value(s@),
            None => s@.len() == 0 || !all_ascii_digits(s@) || dec_value(s@) > u64::MAX,
        },
{
    if s.len() == 0 {
        return None;
    }
    let mut acc: u64 = 0;
    let mut i: usize = 0;
    while i < s.len()
        invariant
            0 <= i <= s@.len(),
            acc == dec_value(s@.subrange(0, i as int)),
            all_ascii_digits(s@.subrange(0, i as int)),
        decreases s@.len() - i,
    {
        let b = s[i];
        if b < 48 || b > 57 {
            proof {
                assert(!is_ascii_digit(s@[i as int]));
            }
            return None;
        }
        let d: u64 = (b - 48) as u64;
        if acc > (u64::MAX - d) / 10 {
            proof {
                let p = s@.subrange(0, i + 1);
                assert(p.drop_last() =~= s@.subrange(0, i as int));
                assert(p.last() == s@[i as int]);
                assert(dec_value(p) == acc * 10 + d);
                assert(acc * 10 + d > u64::MAX) by (nonlinear_arith)
                    requires
                        acc > (u64::MAX - d) / 10,
                        d < 10,
                ;
                lemma_dec_value_prefix_le(s@, i + 1);
            }
            return None;
        }
        proof {
            let p = s@.subrange(0, i + 1);
            assert(p.drop_last() =~= s@.subrange(0, i as int));
            assert(p.last() == s@[i as int]);
            assert(acc * 10 + d <= u64::MAX) by (nonlinear_arith)
                requires
                    acc <= (u64::MAX - d) / 10,
                    d < 10,
            ;
            assert forall|m: int| 0 <= m < p.len() implies is_ascii_digit(#[trigger] p[m]) by {
                if m < i {
                    assert(p[m] == s@.subrange(0, i as int)[m]);
                }
            }
        }
        acc = acc * 10 + d;
        i = i + 1;
    }
    proof {
        assert(s@.subrange(0, s@.len() as int) =~= s@);
    }
    Some(acc)
}

/// Whether two string slices hold the same characters.
pub fn str_eq(a: &str, b: &str) -> (r: bool)
    ensures
        r == (a@ == b@),
{
    let x = a.to_owned();
    let y = b.to_owned();
    x == y
}

/// The bytes `h[from..to]` as a fresh vector.
#[verifier::loop_isolation(false)]
pub fn copy_range(h: &Vec<u8>, from: usize, to: usize) -> (r: Vec<u8>)
    requires
        from <= to <= h@.len(),
    ensures
        r@ == h@.subrange(from as int, to as int),
{
    let mut out: Vec<u8> = Vec::new();
    let mut i: usize = from;
    while i < to
        invariant
            from <= i <= to,
            out@ == h@.subrange(from as int, i as int),
        decreases to - i,
    {
        out.push(h[i]);
        proof {
            assert(out@ =~= h@.subrange(from as int, i + 1));
        }
        i = i + 1;
    }
    out
}

/// Relies on `String::from_utf8_lossy`: bytes that are valid UTF-8 decode to
/// themselves, so a buffer of ASCII bytes becomes the string of exactly those
/// characters.
#[verifier::external_body]
pub fn bytes_to_string(v: &Vec<u8>) -> (r: String)
    ensures
        (forall|i: int| 0 <= i < v@.len() ==> v@[i] < 128) ==> (r@.len() == v@.len() && (forall|
            i: int,
        |
            0 <= i < v@.len() ==> r@[i] == (v@[i] as char))),
{
    String::from_utf8_lossy(v).into_owned()
}

} // verus!

