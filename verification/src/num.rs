//! Decimal numbers: what std's `str::parse` accepts for unsigned integers,
//! and the digits `to_string` / `{}` print.
use vstd::prelude::*;
use crate::text::{chars_of, is_digit, string_from};

verus! {

/// Value of an ASCII digit.
pub open spec fn digit_value(c: char) -> nat {
    ((c as u32) - ('0' as u32)) as nat
}

/// Value of a string of decimal digits.
pub open spec fn dec_value(d: Seq<char>) -> nat
    decreases d.len(),
{
    if d.len() == 0 {
        0
    } else {
        dec_value(d.drop_last()) * 10 + digit_value(d.last())
    }
}

/// Every character is an ASCII digit.
pub open spec fn all_digits(d: Seq<char>) -> bool {
    forall|i: int| 0 <= i < d.len() ==> is_digit(#[trigger] d[i])
}

/// The digits after an optional leading `+`.
pub open spec fn unsigned_body(s: Seq<char>) -> Seq<char> {
    if s.len() > 0 && s[0] == '+' {
        s.drop_first()
    } else {
        s
    }
}

/// What `str::parse::<uN>` reads from `s`, before the range check: an
/// optional `+` and then at least one ASCII digit, nothing else.
pub open spec fn parse_nat(s: Seq<char>) -> Option<nat> {
    let d = unsigned_body(s);
    if d.len() > 0 && all_digits(d) {
        Some(dec_value(d))
    } else {
        None
    }
}

/// `str::parse::<u64>()`: `Some` exactly when the text is a decimal number
/// that fits.
pub open spec fn parse_u64(s: Seq<char>) -> Option<u64> {
    match parse_nat(s) {
        Some(n) => if n <= u64::MAX { Some(n as u64) } else { None },
        None => None,
    }
}

/// `str::parse::<u32>()`.
pub open spec fn parse_u32(s: Seq<char>) -> Option<u32> {
    match parse_nat(s) {
        Some(n) => if n <= u32::MAX { Some(n as u32) } else { None },
        None => None,
    }
}

/// `str::parse::<usize>()`.
pub open spec fn parse_usize(s: Seq<char>) -> Option<usize> {
    match parse_nat(s) {
        Some(n) => if n <= usize::MAX { Some(n as usize) } else { None },
        None => None,
    }
}

/// The ASCII digit for `d < 10`.
pub open spec fn digit_char(d: nat) -> char {
    if d == 0 { '0' }
    else if d == 1 { '1' }
    else if d == 2 { '2' }
    else if d == 3 { '3' }
    else if d == 4 { '4' }
    else if d == 5 { '5' }
    else if d == 6 { '6' }
    else if d == 7 { '7' }
    else if d == 8 { '8' }
    else { '9' }
}

/// The ASCII digit for `d < 10`.
pub fn digit_to_char(d: u64) -> (c: char)
    requires
        d < 10,
    ensures
        c == digit_char(d as nat),
{
    if d == 0 { '0' }
    else if d == 1 { '1' }
    else if d == 2 { '2' }
    else if d == 3 { '3' }
    else if d == 4 { '4' }
    else if d == 5 { '5' }
    else if d == 6 { '6' }
    else if d == 7 { '7' }
    else if d == 8 { '8' }
    else { '9' }
}

/// The decimal digits of `n`, as `n.to_string()` prints them.
pub open spec fn dec_digits(n: nat) -> Seq<char>
    decreases n,
{
    if n < 10 {
        seq![digit_char(n)]
    } else {
        dec_digits(n / 10).push(digit_char(n % 10))
    }
}

pub proof fn lemma_dec_value_monotone(d: Seq<char>, i: int)
    requires
        0 <= i <= d.len(),
    ensures
        dec_value(d.take(i)) <= dec_value(d),
    decreases d.len(),
{
    if i < d.len() {
        assert(d.drop_last().take(i) =~= d.take(i));
        lemma_dec_value_monotone(d.drop_last(), i);
    } else {
        assert(d.take(i) =~= d);
    }
}

pub proof fn lemma_digit_roundtrip(d: nat)
    requires
        d < 10,
    ensures
        digit_value(digit_char(d)) == d,
        is_digit(digit_char(d)),
        d > 0 ==> digit_char(d) != '0',
{
}

pub proof fn lemma_dec_digits_ok(n: nat)
    ensures
        all_digits(dec_digits(n)),
        dec_digits(n).len() > 0,
        dec_value(dec_digits(n)) == n,
        dec_digits(n).len() > 1 ==> dec_digits(n)[0] != '0',
        n >= 10 ==> dec_digits(n).len() > 1,
    decreases n,
{
    lemma_digit_roundtrip(n % 10);
    if n >= 10 {
        lemma_dec_digits_ok(n / 10);
        let d = dec_digits(n);
        assert(d.drop_last() =~= dec_digits(n / 10));
        assert(d[0] == dec_digits(n / 10)[0]);
        assert(d.last() == digit_char(n % 10));
        assert(dec_value(d) == dec_value(d.drop_last()) * 10 + digit_value(d.last()));
        assert(n == (n / 10) * 10 + n % 10);
    } else {
        let d = dec_digits(n);
        assert(d.drop_last() =~= Seq::<char>::empty());
        assert(dec_value(d) == dec_value(d.drop_last()) * 10 + digit_value(d.last()));
    }
}

/// Parses an unsigned decimal number as `str::parse::<u64>` does.
pub fn parse_u64_vec(v: &Vec<char>) -> (r: Option<u64>)
    ensures
        r == parse_u64(v@),
{
    let n = v.len();
    let start: usize = if n > 0 && v[0] == '+' { 1 } else { 0 };
    let ghost d = unsigned_body(v@);
    assert(d =~= v@.skip(start as int));
    if start == n {
        assert(d.len() == 0);
        return None;
    }
    let mut acc: u64 = 0;
    let mut i = start;
    while i < n
        invariant
            start <= i <= n == v.len(),
            d == v@.skip(start as int),
            d == unsigned_body(v@),
            forall|k: int| start <= k < i ==> is_digit(#[trigger] v@[k]),
            acc as nat == dec_value(d.take(i - start)),
        decreases n - i,
    {
        let c = v[i];
        if !('0' <= c && c <= '9') {
            assert(d[i - start] == c);
            assert(!is_digit(d[i - start]));
            assert(!all_digits(d));
            assert(unsigned_body(v@) == d);
            assert(parse_nat(v@) is None);
            return None;
        }
        assert(is_digit(v@[i as int]));
        let dv = (c as u32 - '0' as u32) as u64;
        assert(d.take(i + 1 - start).drop_last() =~= d.take(i - start));
        if acc > (u64::MAX - dv) / 10 {
            // Every remaining digit is still needed to decide whether the text
            // is a number at all, but the value no longer fits.
            proof {
                assert(dec_value(d.take(i + 1 - start)) > u64::MAX) by (nonlinear_arith)
                    requires
                        dec_value(d.take(i + 1 - start)) == acc * 10 + dv,
                        acc > (u64::MAX - dv) / 10,
                        dv <= 9,
                ;
            }
            let rest_ok = all_digit_range(v, i + 1, n);
            if rest_ok {
                proof {
                    assert(all_digits(d)) by {
                        assert forall|k: int| 0 <= k < d.len() implies is_digit(#[trigger] d[k]) by {
                            assert(d[k] == v@[k + start]);
                            if k + start < i {
                            } else if k + start == i {
                            } else {
                                assert(is_digit(v@[k + start]));
                            }
                        }
                    }
                    lemma_dec_value_monotone(d, i + 1 - start);
                    assert(parse_nat(v@) == Some(dec_value(d)));
                }
            } else {
                proof {
                    let k = choose|k: int| i + 1 <= k < n && !is_digit(v@[k]);
                    assert(d[k - start] == v@[k]);
                }
            }
            return None;
        }
        acc = acc * 10 + dv;
        i = i + 1;
    }
    assert(d.take(n - start) =~= d);
    assert(all_digits(d)) by {
        assert forall|k: int| 0 <= k < d.len() implies is_digit(#[trigger] d[k]) by {
            assert(d[k] == v@[k + start]);
        }
    }
    Some(acc)
}

/// Whether `v[lo..hi]` is all ASCII digits.
fn all_digit_range(v: &Vec<char>, lo: usize, hi: usize) -> (b: bool)
    requires
        lo <= hi <= v.len(),
    ensures
        b == (forall|k: int| lo <= k < hi ==> is_digit(#[trigger] v@[k])),
{
    let mut i = lo;
    while i < hi
        invariant
            lo <= i <= hi <= v.len(),
            forall|k: int| lo <= k < i ==> is_digit(#[trigger] v@[k]),
        decreases hi - i,
    {
        if !('0' <= v[i] && v[i] <= '9') {
            return false;
        }
        i = i + 1;
    }
    true
}

/// Parses an unsigned decimal number as `str::parse::<u32>` does.
pub fn parse_u32_vec(v: &Vec<char>) -> (r: Option<u32>)
    ensures
        r == parse_u32(v@),
{
    match parse_u64_vec(v) {
        Some(x) => if x <= u32::MAX as u64 {
            Some(x as u32)
        } else {
            None
        },
        None => {
            assert(parse_u32(v@) is None);
            None
        },
    }
}

/// `str::parse::<u64>()` of a string.
pub fn parse_u64_str(s: &str) -> (r: Option<u64>)
    ensures
        r == parse_u64(s@),
{
    let v = chars_of(s);
    parse_u64_vec(&v)
}

/// `str::parse::<u32>()` of a string.
pub fn parse_u32_str(s: &str) -> (r: Option<u32>)
    ensures
        r == parse_u32(s@),
{
    let v = chars_of(s);
    parse_u32_vec(&v)
}

/// Appends the decimal digits of `n` to `out`.
pub fn push_decimal(out: &mut Vec<char>, n: u64)
    ensures
        final(out)@ == old(out)@ + dec_digits(n as nat),
    decreases n,
{
    if n >= 10 {
        push_decimal(out, n / 10);
    }
    let c = digit_to_char(n % 10);
    out.push(c);
    assert(dec_digits(n as nat) =~= if n >= 10 {
        dec_digits((n / 10) as nat).push(c)
    } else {
        seq![c]
    });
}

/// `n.to_string()`.
pub fn decimal_string(n: u64) -> (s: String)
    ensures
        s@ == dec_digits(n as nat),
{
    let mut v: Vec<char> = Vec::new();
    push_decimal(&mut v, n);
    assert(v@ =~= dec_digits(n as nat));
    string_from(&v)
}

/// `str::parse::<usize>()` on a character vector.
pub fn parse_usize_vec(v: &Vec<char>) -> (r: Option<usize>)
    ensures
        r == parse_usize(v@),
{
    match parse_u64_vec(v) {
        Some(n) => if n as u128 <= usize::MAX as u128 {
            Some(n as usize)
        } else {
            None
        },
        None => {
            assert(parse_nat(v@) matches Some(n) ==> n > u64::MAX);
            None
        },
    }
}

/// A number printed in decimal and read back is the number: `parse`
/// undoes `to_string` for every width that holds it.
pub proof fn lemma_parse_dec_digits(n: nat)
    ensures
        parse_nat(dec_digits(n)) == Some(n),
        n <= u64::MAX ==> parse_u64(dec_digits(n)) == Some(n as u64),
        n <= u32::MAX ==> parse_u32(dec_digits(n)) == Some(n as u32),
        n <= usize::MAX ==> parse_usize(dec_digits(n)) == Some(n as usize),
{
    lemma_dec_digits_ok(n);
    let d = dec_digits(n);
    assert(is_digit(d[0]));
    assert(unsigned_body(d) == d);
}

} // verus!
