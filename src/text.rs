//! Decimal rendering of unsigned integers, stated over character sequences.

use vstd::prelude::*;
use vstd::string::*;
use vstd::arithmetic::div_mod::{lemma_div_is_ordered, lemma_div_is_ordered_by_denominator};

verus! {

/// The ASCII digit for `d` (taken modulo ten).
pub open spec fn digit_char(d: nat) -> char {
    let m = d % 10;
    if m == 0 { '0' }
    else if m == 1 { '1' }
    else if m == 2 { '2' }
    else if m == 3 { '3' }
    else if m == 4 { '4' }
    else if m == 5 { '5' }
    else if m == 6 { '6' }
    else if m == 7 { '7' }
    else if m == 8 { '8' }
    else { '9' }
}

/// Decimal digits of `n`, most significant first, without leading zeros ("0" for zero).
pub open spec fn decimal(n: nat) -> Seq<char>
    decreases n,
{
    if n < 10 {
        seq![digit_char(n)]
    } else {
        decimal(n / 10) + seq![digit_char(n % 10)]
    }
}

/// The one-character text of a single digit.
fn digit_str(d: u64) -> (r: &'static str)
    requires
        d < 10,
    ensures
        r@ == seq![digit_char(d as nat)],
{
    proof {
        reveal_strlit("0");
        reveal_strlit("1");
        reveal_strlit("2");
        reveal_strlit("3");
        reveal_strlit("4");
        reveal_strlit("5");
        reveal_strlit("6");
        reveal_strlit("7");
        reveal_strlit("8");
        reveal_strlit("9");
    }
    if d == 0 { "0" }
    else if d == 1 { "1" }
    else if d == 2 { "2" }
    else if d == 3 { "3" }
    else if d == 4 { "4" }
    else if d == 5 { "5" }
    else if d == 6 { "6" }
    else if d == 7 { "7" }
    else if d == 8 { "8" }
    else { "9" }
}

/// Appends the decimal digits of `n` to `out`.
pub fn push_decimal(out: &mut String, n: u64)
    ensures
        final(out)@ == old(out)@ + decimal(n as nat),
    decreases n,
{
    if n < 10 {
        out.append(digit_str(n));
    } else {
        push_decimal(out, n / 10);
        out.append(digit_str(n % 10));
        assert(final(out)@ =~= old(out)@ + decimal(n as nat));
    }
}

/// The decimal text of `n`.
pub fn decimal_string(n: u64) -> (r: String)
    ensures
        r@ == decimal(n as nat),
{
    let mut s = String::new();
    push_decimal(&mut s, n);
    assert(s@ =~= decimal(n as nat));
    s
}

/// `1024` to the power `e`.
pub open spec fn pow1024(e: nat) -> nat
    decreases e,
{
    if e == 0 {
        1
    } else {
        1024 * pow1024((e - 1) as nat)
    }
}

/// Starting from exponent `e`, the exponent reached by stepping up while
/// `b` is at least `1024` to the next power and `max_exp` is not reached.
pub open spec fn exponent_from(b: nat, e: nat, max_exp: nat) -> nat
    decreases max_exp - e,
{
    if e < max_exp && b >= pow1024(e + 1) {
        exponent_from(b, e + 1, max_exp)
    } else {
        e
    }
}

/// The name of the unit `1024^e` bytes.
pub open spec fn size_unit(e: nat) -> Seq<char> {
    if e == 0 {
        "B"@
    } else if e == 1 {
        "KB"@
    } else if e == 2 {
        "MB"@
    } else if e == 3 {
        "GB"@
    } else if e == 4 {
        "TB"@
    } else {
        "PB"@
    }
}

/// `n / d` rounded to the nearest integer, ties to the even one.
pub open spec fn round_half_even(n: nat, d: nat) -> nat {
    let q = n / d;
    let r = n % d;
    if 2 * r > d || (2 * r == d && q % 2 == 1) {
        q + 1
    } else {
        q
    }
}

/// A count of tenths written with one decimal place.
pub open spec fn one_decimal(tenths: nat) -> Seq<char> {
    decimal(tenths / 10) + "."@ + decimal(tenths % 10)
}

/// A byte count in the largest unit up to `1024^max_exp` that it reaches:
/// whole bytes as they are, larger units with one decimal place.
pub open spec fn size_text(b: nat, max_exp: nat) -> Seq<char> {
    let e = exponent_from(b, 0, max_exp);
    if e == 0 {
        decimal(b) + " "@ + size_unit(0)
    } else {
        one_decimal(round_half_even(b * 10, pow1024(e))) + " "@ + size_unit(e)
    }
}

/// A duration as days, hours and minutes; hours and minutes; minutes and
/// seconds; or seconds, by its largest non-zero part.
pub open spec fn duration_text(s: nat) -> Seq<char> {
    let days = s / 86400;
    let hours = (s % 86400) / 3600;
    let minutes = (s % 3600) / 60;
    let secs = s % 60;
    if days > 0 {
        decimal(days) + "天 "@ + decimal(hours) + "小时 "@ + decimal(minutes) + "分钟"@
    } else if hours > 0 {
        decimal(hours) + "小时 "@ + decimal(minutes) + "分钟"@
    } else if minutes > 0 {
        decimal(minutes) + "分钟 "@ + decimal(secs) + "秒"@
    } else {
        decimal(secs) + "秒"@
    }
}

/// Three digits of `n`, with leading zeros.
pub open spec fn three_digits(n: nat) -> Seq<char> {
    seq![digit_char(n / 100), digit_char((n / 10) % 10), digit_char(n % 10)]
}

/// The decimal digits of `n` in groups of three separated by commas.
pub open spec fn grouped(n: nat) -> Seq<char>
    decreases n,
{
    if n < 1000 {
        decimal(n)
    } else {
        grouped(n / 1000) + ","@ + three_digits(n % 1000)
    }
}

/// `n / d` rounded half to even, written with one decimal place.
pub fn push_one_decimal(out: &mut String, n: u128, d: u128)
    requires
        10 <= d <= 0xffff_ffff_ffff_ffff,
        n <= 10 * 0xffff_ffff_ffff_ffffu128,
    ensures
        final(out)@ == old(out)@ + one_decimal(round_half_even(n as nat, d as nat)),
{
    let q = n / d;
    let r = n % d;
    let tenths: u128 = if 2 * r > d || (2 * r == d && q % 2 == 1) {
        q + 1
    } else {
        q
    };
    proof {
        lemma_div_is_ordered_by_denominator(n as int, 10, d as int);
        lemma_div_is_ordered(n as int, 10 * 0xffff_ffff_ffff_ffffu128 as int, 10);
    }
    push_decimal(out, (tenths / 10) as u64);
    out.append(".");
    push_decimal(out, (tenths % 10) as u64);
    assert(final(out)@ =~= old(out)@ + one_decimal(round_half_even(n as nat, d as nat)));
}

/// The name of the unit `1024^e` bytes.
fn unit_name(e: u32) -> (r: &'static str)
    ensures
        r@ == size_unit(e as nat),
{
    if e == 0 {
        "B"
    } else if e == 1 {
        "KB"
    } else if e == 2 {
        "MB"
    } else if e == 3 {
        "GB"
    } else if e == 4 {
        "TB"
    } else {
        "PB"
    }
}

/// A byte count in the largest unit up to `1024^max_exp` that it reaches.
pub fn size_string(bytes: u64, max_exp: u32) -> (r: String)
    requires
        max_exp <= 5,
    ensures
        r@ == size_text(bytes as nat, max_exp as nat),
{
    let mut e: u32 = 0;
    let mut unit: u64 = 1;
    proof {
        lemma_pow1024_bound(0);
    }
    while e < max_exp && bytes >= unit * 1024
        invariant
            e <= max_exp <= 5,
            unit == pow1024(e as nat),
            unit <= 0x4_0000_0000_0000,
            exponent_from(bytes as nat, e as nat, max_exp as nat) == exponent_from(
                bytes as nat,
                0,
                max_exp as nat,
            ),
        decreases max_exp - e,
    {
        proof {
            lemma_pow1024_bound(e as nat);
        }
        unit = unit * 1024;
        e = e + 1;
        proof {
            lemma_pow1024_bound(e as nat);
        }
    }
    proof {
        lemma_pow1024_bound(e as nat);
        if e < max_exp {
            assert(!(bytes >= unit * 1024));
        }
    }
    let mut out = String::new();
    if e == 0 {
        push_decimal(&mut out, bytes);
    } else {
        push_one_decimal(&mut out, bytes as u128 * 10, unit as u128);
    }
    out.append(" ");
    out.append(unit_name(e));
    assert(out@ =~= size_text(bytes as nat, max_exp as nat));
    out
}

proof fn lemma_pow1024_bound(e: nat)
    requires
        e <= 5,
    ensures
        pow1024(e) <= 0x4_0000_0000_0000,
        pow1024(e) >= 1,
        e >= 1 ==> pow1024(e) >= 1024,
        pow1024(e + 1) == 1024 * pow1024(e),
{
    reveal_with_fuel(pow1024, 7);
}

/// A duration in seconds as text, by its largest non-zero part.
pub fn duration_string(seconds: u64) -> (r: String)
    ensures
        r@ == duration_text(seconds as nat),
{
    let days = seconds / 86400;
    let hours = (seconds % 86400) / 3600;
    let minutes = (seconds % 3600) / 60;
    let secs = seconds % 60;
    let mut out = String::new();
    if days > 0 {
        push_decimal(&mut out, days);
        out.append("天 ");
        push_decimal(&mut out, hours);
        out.append("小时 ");
        push_decimal(&mut out, minutes);
        out.append("分钟");
    } else if hours > 0 {
        push_decimal(&mut out, hours);
        out.append("小时 ");
        push_decimal(&mut out, minutes);
        out.append("分钟");
    } else if minutes > 0 {
        push_decimal(&mut out, minutes);
        out.append("分钟 ");
        push_decimal(&mut out, secs);
        out.append("秒");
    } else {
        push_decimal(&mut out, secs);
        out.append("秒");
    }
    assert(out@ =~= duration_text(seconds as nat));
    out
}

/// Appends the digits of `n` in comma-separated groups of three.
pub fn push_grouped(out: &mut String, n: u64)
    ensures
        final(out)@ == old(out)@ + grouped(n as nat),
    decreases n,
{
    if n < 1000 {
        push_decimal(out, n);
    } else {
        push_grouped(out, n / 1000);
        out.append(",");
        let low = n % 1000;
        out.append(digit_str(low / 100));
        out.append(digit_str((low / 10) % 10));
        out.append(digit_str(low % 10));
        assert(final(out)@ =~= old(out)@ + grouped(n as nat));
    }
}

} // verus!
