//! Text forms of token counts, costs and durations.
use vstd::prelude::*;

verus! {

/// The digit `d < 10` as text.
pub open spec fn digit_text(d: nat) -> Seq<char> {
    if d == 0 { "0"@ }
    else if d == 1 { "1"@ }
    else if d == 2 { "2"@ }
    else if d == 3 { "3"@ }
    else if d == 4 { "4"@ }
    else if d == 5 { "5"@ }
    else if d == 6 { "6"@ }
    else if d == 7 { "7"@ }
    else if d == 8 { "8"@ }
    else { "9"@ }
}

/// Decimal digits of `n`, without leading zeros.
pub open spec fn decimal(n: nat) -> Seq<char>
    decreases n,
{
    if n < 10 {
        digit_text(n)
    } else {
        decimal(n / 10) + digit_text(n % 10)
    }
}

/// Decimal digits of `n < 100`, padded to two with a leading zero.
pub open spec fn two_digits(n: nat) -> Seq<char> {
    if n < 10 { "0"@ + decimal(n) } else { decimal(n) }
}

/// `a / b` rounded to the nearest integer, halves rounded up.
pub open spec fn round_div(a: nat, b: nat) -> nat
    recommends
        b > 0,
{
    if (a % b) * 2 >= b { a / b + 1 } else { a / b }
}

/// A count with one decimal: `M` from a million, `K` from a thousand.
pub open spec fn tokens_text(count: nat) -> Seq<char> {
    if count >= 1_000_000 {
        let t = round_div(count, 100_000);
        decimal(t / 10) + "."@ + decimal(t % 10) + "M"@
    } else if count >= 1_000 {
        let t = round_div(count, 100);
        decimal(t / 10) + "."@ + decimal(t % 10) + "K"@
    } else {
        decimal(count)
    }
}

/// A cost in cost units (10^-8 dollars) as dollars: whole dollars from 100,
/// one decimal from 10, two decimals below.
pub open spec fn cost_text(cost: nat) -> Seq<char> {
    if cost >= 10_000_000_000 {
        "$"@ + decimal(round_div(cost, 100_000_000))
    } else if cost >= 1_000_000_000 {
        let t = round_div(cost, 10_000_000);
        "$"@ + decimal(t / 10) + "."@ + decimal(t % 10)
    } else {
        let c = round_div(cost, 1_000_000);
        "$"@ + decimal(c / 100) + "."@ + two_digits(c % 100)
    }
}

/// A number of seconds as hours and minutes, minutes and seconds, or seconds.
pub open spec fn duration_text(secs: int) -> Seq<char> {
    if secs <= 0 {
        "now"@
    } else {
        let hours = secs / 3600;
        let mins = (secs % 3600) / 60;
        let s = secs % 60;
        if hours > 0 {
            decimal(hours as nat) + "h "@ + two_digits(mins as nat) + "m"@
        } else if mins > 0 {
            decimal(mins as nat) + "m "@ + two_digits(s as nat) + "s"@
        } else {
            decimal(s as nat) + "s"@
        }
    }
}

fn digit_str(d: u128) -> (r: &'static str)
    requires
        d < 10,
    ensures
        r@ == digit_text(d as nat),
{
    if d == 0 { "0" }
    else if d == 1 { "1" }
    else if d == 2 { "2" }
    else if d == 3 { "3" }
    else if d == 4 { "4" }
    else if d == 5 { "5" }
    else if d == 6 { "6" }
    else if d == 7 { "7" }
    else if d == 8 { "8" }
    else { "9" }
}

/// Appends the decimal digits of `n`.
pub fn push_decimal(s: &mut String, n: u128)
    ensures
        final(s)@ == old(s)@ + decimal(n as nat),
    decreases n,
{
    if n < 10 {
        s.append(digit_str(n));
    } else {
        push_decimal(s, n / 10);
        s.append(digit_str(n % 10));
        assert(final(s)@ =~= old(s)@ + decimal(n as nat));
    }
}

fn push_two_digits(s: &mut String, n: u128)
    requires
        n < 100,
    ensures
        final(s)@ == old(s)@ + two_digits(n as nat),
{
    let ghost start = s@;
    if n < 10 {
        s.append("0");
    }
    push_decimal(s, n);
    assert(s@ =~= start + two_digits(n as nat));
}

fn round_div_exec(a: u128, b: u128) -> (r: u128)
    requires
        b > 1,
    ensures
        r == round_div(a as nat, b as nat),
{
    let q = a / b;
    assert(q * 2 <= a) by (nonlinear_arith)
        requires
            q == a / b,
            b > 1,
    ;
    if (a % b) >= b - (a % b) {
        q + 1
    } else {
        q
    }
}

/// A token count with a `K` or `M` suffix and one decimal.
pub fn format_tokens(count: u64) -> (r: String)
    ensures
        r@ == tokens_text(count as nat),
{
    let mut s = String::new();
    if count >= 1_000_000 {
        let t = round_div_exec(count as u128, 100_000);
        push_decimal(&mut s, t / 10);
        s.append(".");
        push_decimal(&mut s, t % 10);
        s.append("M");
    } else if count >= 1_000 {
        let t = round_div_exec(count as u128, 100);
        push_decimal(&mut s, t / 10);
        s.append(".");
        push_decimal(&mut s, t % 10);
        s.append("K");
    } else {
        push_decimal(&mut s, count as u128);
    }
    assert(s@ =~= tokens_text(count as nat));
    s
}

/// A cost given in cost units, as dollars.
pub fn format_cost(cost: u128) -> (r: String)
    ensures
        r@ == cost_text(cost as nat),
{
    let mut s = String::new();
    s.append("$");
    if cost >= 10_000_000_000 {
        push_decimal(&mut s, round_div_exec(cost, 100_000_000));
    } else if cost >= 1_000_000_000 {
        let t = round_div_exec(cost, 10_000_000);
        push_decimal(&mut s, t / 10);
        s.append(".");
        push_decimal(&mut s, t % 10);
    } else {
        let c = round_div_exec(cost, 1_000_000);
        push_decimal(&mut s, c / 100);
        s.append(".");
        push_two_digits(&mut s, c % 100);
    }
    assert(s@ =~= cost_text(cost as nat));
    s
}

/// A duration in seconds for display; zero or less is "now".
pub fn format_duration(secs: i64) -> (r: String)
    ensures
        r@ == duration_text(secs as int),
{
    if secs <= 0 {
        return String::from_str("now");
    }
    let hours = secs / 3600;
    let mins = (secs % 3600) / 60;
    let sec = secs % 60;
    let mut s = String::new();
    if hours > 0 {
        push_decimal(&mut s, hours as u128);
        s.append("h ");
        push_two_digits(&mut s, mins as u128);
        s.append("m");
    } else if mins > 0 {
        push_decimal(&mut s, mins as u128);
        s.append("m ");
        push_two_digits(&mut s, sec as u128);
        s.append("s");
    } else {
        push_decimal(&mut s, sec as u128);
        s.append("s");
    }
    assert(s@ =~= duration_text(secs as int));
    s
}

} // verus!
