//! Decimal text of integers, written and read back as Rust's `to_string`
//! and `str::parse::<i64>` do.
use vstd::prelude::*;
use crate::text::{chars_of, string_of_chars};

verus! {

/// The character of the decimal digit `d`.
pub open spec fn digit_char(d: int) -> char {
    if d == 0 { '0' } else if d == 1 { '1' } else if d == 2 { '2' } else if d == 3 { '3' }
    else if d == 4 { '4' } else if d == 5 { '5' } else if d == 6 { '6' } else if d == 7 { '7' }
    else if d == 8 { '8' } else { '9' }
}

/// An ASCII decimal digit.
pub open spec fn is_digit(c: char) -> bool {
    '0' <= c && c <= '9'
}

/// The value of the digit character `c`.
pub open spec fn digit_value(c: char) -> int {
    c as int - 48
}

/// Decimal text of a natural number, without leading zeros.
pub open spec fn nat_decimal(n: nat) -> Seq<char>
    decreases n,
{
    if n < 10 {
        seq![digit_char(n as int)]
    } else {
        nat_decimal(n / 10).push(digit_char((n % 10) as int))
    }
}

/// Decimal text of an integer, with a leading `-` when it is negative.
pub open spec fn int_decimal(n: int) -> Seq<char> {
    if n < 0 {
        seq!['-'] + nat_decimal((-n) as nat)
    } else {
        nat_decimal(n as nat)
    }
}

/// Every character of `d` is a decimal digit.
pub open spec fn all_digits(d: Seq<char>) -> bool {
    forall|k: int| 0 <= k < d.len() ==> is_digit(#[trigger] d[k])
}

/// The value of a run of decimal digits.
pub open spec fn digits_value(d: Seq<char>) -> int
    decreases d.len(),
{
    if d.len() == 0 {
        0
    } else {
        digits_value(d.drop_last()) * 10 + digit_value(d.last())
    }
}

/// The integer that `s` denotes as `str::parse::<i64>` reads it: an optional
/// `+` or `-`, then at least one decimal digit and nothing else; `None` for
/// any other text. The range of `i64` is not checked here.
pub open spec fn decimal_value(s: Seq<char>) -> Option<int> {
    let neg = s.len() > 0 && s[0] == '-';
    let signed = s.len() > 0 && (s[0] == '-' || s[0] == '+');
    let d = if signed { s.skip(1) } else { s };
    if d.len() > 0 && all_digits(d) {
        Some(if neg { -digits_value(d) } else { digits_value(d) })
    } else {
        None
    }
}

/// What `str::parse::<i64>` gives for `s`.
pub open spec fn parsed_i64(s: Seq<char>) -> Option<i64> {
    match decimal_value(s) {
        Some(v) => if i64::MIN <= v <= i64::MAX {
            Some(v as i64)
        } else {
            None
        },
        None => None,
    }
}

proof fn lemma_digit_char(k: int)
    requires
        0 <= k < 10,
    ensures
        is_digit(digit_char(k)),
        digit_value(digit_char(k)) == k,
{
    assert('0' as int == 48 && '1' as int == 49 && '2' as int == 50 && '3' as int == 51 && '4' as int == 52);
    assert('5' as int == 53 && '6' as int == 54 && '7' as int == 55 && '8' as int == 56 && '9' as int == 57);
}

proof fn lemma_nat_decimal_digits(n: nat)
    ensures
        nat_decimal(n).len() > 0,
        all_digits(nat_decimal(n)),
        digits_value(nat_decimal(n)) == n,
    decreases n,
{
    lemma_digit_char((n % 10) as int);
    if n < 10 {
        let d = nat_decimal(n);
        assert(n % 10 == n);
        assert(d.drop_last() =~= Seq::<char>::empty());
        assert(d.last() == digit_char(n as int));
        assert(digits_value(d) == digits_value(d.drop_last()) * 10 + digit_value(d.last()));
    } else {
        lemma_nat_decimal_digits(n / 10);
        let d = nat_decimal(n);
        assert(n == (n / 10) * 10 + n % 10);
        assert(d.last() == digit_char((n % 10) as int));
        assert(digits_value(d) == digits_value(d.drop_last()) * 10 + digit_value(d.last()));
        assert(d.drop_last() =~= nat_decimal(n / 10));
        assert forall|k: int| 0 <= k < d.len() implies is_digit(#[trigger] d[k]) by {
            if k < d.len() - 1 {
                assert(d[k] == nat_decimal(n / 10)[k]);
            }
        }
    }
}

/// Reading back the decimal text of an `i64` gives the same number.
pub proof fn lemma_decimal_roundtrip(n: i64)
    ensures
        parsed_i64(int_decimal(n as int)) == Some(n),
{
    let s = int_decimal(n as int);
    if n < 0 {
        lemma_nat_decimal_digits((-n) as nat);
        assert(s.skip(1) =~= nat_decimal((-n) as nat));
    } else {
        lemma_nat_decimal_digits(n as nat);
        let d = nat_decimal(n as nat);
        assert(is_digit(d[0]));
    }
}

fn digit_char_exec(d: u8) -> (c: char)
    requires
        d < 10,
    ensures
        c == digit_char(d as int),
{
    match d {
        0 => '0',
        1 => '1',
        2 => '2',
        3 => '3',
        4 => '4',
        5 => '5',
        6 => '6',
        7 => '7',
        8 => '8',
        _ => '9',
    }
}

/// Appends the decimal text of `n` to `out`.
fn push_nat_decimal(n: u64, out: &mut Vec<char>)
    ensures
        final(out)@ == old(out)@ + nat_decimal(n as nat),
    decreases n,
{
    if n < 10 {
        let c = digit_char_exec(n as u8);
        out.push(c);
        assert(nat_decimal(n as nat) =~= seq![c]);
    } else {
        push_nat_decimal(n / 10, out);
        let c = digit_char_exec((n % 10) as u8);
        let ghost before = out@;
        out.push(c);
        assert(out@ =~= old(out)@ + nat_decimal((n / 10) as nat).push(c));
    }
}

/// The decimal text of `n` (`i64::to_string`).
pub fn i64_to_decimal(n: i64) -> (s: String)
    ensures
        s@ == int_decimal(n as int),
{
    let mut out: Vec<char> = Vec::new();
    if n < 0 {
        out.push('-');
        let m: u64 = (0i128 - n as i128) as u64;
        push_nat_decimal(m, &mut out);
    } else {
        push_nat_decimal(n as u64, &mut out);
    }
    string_of_chars(&out)
}

/// The decimal text of `n` (`u64::to_string`).
pub fn u64_to_decimal(n: u64) -> (s: String)
    ensures
        s@ == nat_decimal(n as nat),
{
    let mut out: Vec<char> = Vec::new();
    push_nat_decimal(n, &mut out);
    string_of_chars(&out)
}

/// Reads `s` as an `i64` (`str::parse::<i64>`): `None` for anything but an
/// optional sign followed by digits, or for a value out of range.
pub fn parse_i64(s: &str) -> (r: Option<i64>)
    ensures
        r == parsed_i64(s@),
{
    let v = chars_of(s);
    if v.len() == 0 {
        return None;
    }
    let neg = v[0] == '-';
    let start: usize = if v[0] == '-' || v[0] == '+' { 1 } else { 0 };
    let ghost d = if start == 1 { s@.skip(1) } else { s@ };
    if start >= v.len() {
        return None;
    }
    let bound: i128 = 9223372036854775808;
    let mut acc: i128 = 0;
    let mut over = false;
    let mut i: usize = start;
    assert(d =~= v@.skip(start as int));
    while i < v.len()
        invariant
            start <= i <= v.len(),
            v@ == s@,
            v@.len() > 0,
            neg == (v@[0] == '-'),
            (start == 1) == (v@[0] == '-' || v@[0] == '+'),
            start == 0 || start == 1,
            bound == 9223372036854775808,
            d == v@.skip(start as int),
            forall|k: int| start <= k < i ==> is_digit(#[trigger] v@[k]),
            !over ==> acc == digits_value(v@.subrange(start as int, i as int)),
            !over ==> 0 <= acc <= bound,
            over ==> digits_value(v@.subrange(start as int, i as int)) > bound,
        decreases v.len() - i,
    {
        let c = v[i];
        if !('0' <= c && c <= '9') {
            assert(!all_digits(d)) by {
                assert(d[i - start] == c);
            }
            return None;
        }
        let ghost pre = v@.subrange(start as int, i as int);
        assert(v@.subrange(start as int, i + 1).drop_last() =~= pre);
        proof {
            lemma_digits_value_nonneg(pre);
        }
        if !over {
            let dv = (c as u32 - 48) as i128;
            let next = acc * 10 + dv;
            if next > bound {
                over = true;
            } else {
                acc = next;
            }
        }
        i = i + 1;
    }
    assert(v@.subrange(start as int, v.len() as int) =~= d);
    assert(all_digits(d)) by {
        assert forall|k: int| 0 <= k < d.len() implies is_digit(#[trigger] d[k]) by {
            assert(d[k] == v@[k + start]);
        }
    }
    if over {
        None
    } else if neg {
        Some((0i128 - acc) as i64)
    } else if acc > 9223372036854775807 {
        None
    } else {
        Some(acc as i64)
    }
}

proof fn lemma_digits_value_nonneg(d: Seq<char>)
    requires
        all_digits(d),
    ensures
        digits_value(d) >= 0,
    decreases d.len(),
{
    if d.len() > 0 {
        assert(all_digits(d.drop_last())) by {
            assert forall|k: int| 0 <= k < d.drop_last().len() implies is_digit(#[trigger] d.drop_last()[k]) by {
                assert(d.drop_last()[k] == d[k]);
            }
        }
        lemma_digits_value_nonneg(d.drop_last());
        assert(is_digit(d[d.len() - 1]));
    }
}

} // verus!
