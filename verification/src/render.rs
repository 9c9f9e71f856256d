//! The text of a report: ten lines in a fixed order.

use vstd::prelude::*;
use vstd::string::StringExecFns;
use crate::report::{ReportView, TransactionReport};

verus! {

/// How many of the smallest units make one unit of display.
pub const UNITS_PER_COIN: u64 = 100_000_000;

/// How many digits a fraction of one display unit can have.
pub const FRACTION_PLACES: u32 = 8;

/// The character of a decimal digit.
pub open spec fn digit_char(d: nat) -> char {
    if d == 0 {
        '0'
    } else if d == 1 {
        '1'
    } else if d == 2 {
        '2'
    } else if d == 3 {
        '3'
    } else if d == 4 {
        '4'
    } else if d == 5 {
        '5'
    } else if d == 6 {
        '6'
    } else if d == 7 {
        '7'
    } else if d == 8 {
        '8'
    } else {
        '9'
    }
}

/// The decimal digits of `n`, most significant first, with no leading zero.
pub open spec fn decimal_text(n: nat) -> Seq<char>
    decreases n,
{
    if n < 10 {
        seq![digit_char(n)]
    } else {
        decimal_text(n / 10).push(digit_char(n % 10))
    }
}

/// The last `places` decimal digits of `n`, most significant first, with
/// leading zeros kept.
pub open spec fn padded_digits(n: nat, places: nat) -> Seq<char>
    decreases places,
{
    if places == 0 {
        Seq::empty()
    } else {
        padded_digits(n / 10, (places - 1) as nat).push(digit_char(n % 10))
    }
}

/// The digits after the decimal point of a fraction of `fraction` parts in
/// ten to the power of `places`: all `places` digits, less the zeros at the
/// end, which add nothing to the value.
pub open spec fn fraction_text(fraction: nat, places: nat) -> Seq<char>
    decreases places,
{
    if fraction == 0 || places == 0 {
        Seq::empty()
    } else if fraction % 10 == 0 {
        fraction_text(fraction / 10, (places - 1) as nat)
    } else {
        padded_digits(fraction, places)
    }
}

/// An amount of `units` smallest units, written in display units at full
/// precision: the whole part, then, unless the amount is whole, a point and the
/// fraction without the zeros at its end.
pub open spec fn amount_text(units: nat) -> Seq<char> {
    if units % (UNITS_PER_COIN as nat) == 0 {
        decimal_text(units / (UNITS_PER_COIN as nat))
    } else {
        decimal_text(units / (UNITS_PER_COIN as nat)).push('.') + fraction_text(
            units % (UNITS_PER_COIN as nat),
            FRACTION_PLACES as nat,
        )
    }
}

/// One line of the report: the value, then a line feed.
pub open spec fn line(value: Seq<char>) -> Seq<char> {
    value.push('\n')
}

/// The text of a report: one value per line, in this order and no other, with
/// no header and nothing after the last line.
pub open spec fn report_text(report: ReportView) -> Seq<char> {
    line(report.txid) + line(report.input_address) + line(amount_text(report.input_amount)) + line(
        report.payee_address,
    ) + line(amount_text(report.payee_amount)) + line(report.change_address) + line(
        amount_text(report.change_amount),
    ) + line(amount_text(report.fee)) + line(decimal_text(report.block_height)) + line(
        report.block_hash,
    )
}

fn digit_str(d: u64) -> (text: &'static str)
    requires
        d < 10,
    ensures
        text@ == seq![digit_char(d as nat)],
{
    proof {
        reveal_strlit("0");
        reveal_strlit("1");
        reveal_strlit("2");
        reveal_strlit("3");
        reveal_strlit("4");
        reveal_strlit("5");
        reveal_strlit("6");
        reveal_strlit("7");
        reveal_strlit("8");
        reveal_strlit("9");
    }
    let text = if d == 0 {
        "0"
    } else if d == 1 {
        "1"
    } else if d == 2 {
        "2"
    } else if d == 3 {
        "3"
    } else if d == 4 {
        "4"
    } else if d == 5 {
        "5"
    } else if d == 6 {
        "6"
    } else if d == 7 {
        "7"
    } else if d == 8 {
        "8"
    } else {
        "9"
    };
    assert(text@ =~= seq![digit_char(d as nat)]);
    text
}

fn push_decimal(out: &mut String, n: u64)
    ensures
        final(out)@ == old(out)@ + decimal_text(n as nat),
    decreases n,
{
    if n >= 10 {
        push_decimal(out, n / 10);
    }
    out.append(digit_str(n % 10));
    assert(final(out)@ =~= old(out)@ + decimal_text(n as nat));
}

fn push_padded(out: &mut String, n: u64, places: u32)
    ensures
        final(out)@ == old(out)@ + padded_digits(n as nat, places as nat),
    decreases places,
{
    if places > 0 {
        push_padded(out, n / 10, places - 1);
        out.append(digit_str(n % 10));
    }
    assert(final(out)@ =~= old(out)@ + padded_digits(n as nat, places as nat));
}

fn push_fraction(out: &mut String, fraction: u64, places: u32)
    ensures
        final(out)@ == old(out)@ + fraction_text(fraction as nat, places as nat),
{
    let mut rest: u64 = fraction;
    let mut left: u32 = places;
    while rest != 0 && left != 0 && rest % 10 == 0
        invariant
            fraction_text(rest as nat, left as nat) == fraction_text(fraction as nat, places as nat),
        decreases left,
    {
        rest = rest / 10;
        left = left - 1;
    }
    if rest != 0 && left != 0 {
        push_padded(out, rest, left);
    }
    assert(final(out)@ =~= old(out)@ + fraction_text(fraction as nat, places as nat));
}

fn push_line(out: &mut String, value: &str)
    ensures
        final(out)@ == old(out)@ + line(value@),
{
    proof {
        reveal_strlit("\n");
    }
    out.append(value);
    out.append("\n");
    assert(final(out)@ =~= old(out)@ + line(value@));
}

/// Writes `n` in decimal.
pub fn render_decimal(n: u64) -> (text: String)
    ensures
        text@ == decimal_text(n as nat),
{
    let mut text = String::new();
    push_decimal(&mut text, n);
    assert(text@ =~= decimal_text(n as nat));
    text
}

/// Writes an amount of `units` smallest units in display units, exactly: the
/// text stands for `units` and for no other amount.
pub fn render_amount(units: u64) -> (text: String)
    ensures
        text@ == amount_text(units as nat),
{
    proof {
        reveal_strlit(".");
    }
    let mut text = String::new();
    push_decimal(&mut text, units / UNITS_PER_COIN);
    let fraction: u64 = units % UNITS_PER_COIN;
    if fraction != 0 {
        text.append(".");
        push_fraction(&mut text, fraction, FRACTION_PLACES);
    }
    assert(text@ =~= amount_text(units as nat));
    text
}

/// Renders a report as text: ten lines, each ended by a line feed.
pub fn format(report: &TransactionReport) -> (text: String)
    ensures
        text@ == report_text(report@),
{
    let mut text = String::new();
    push_line(&mut text, report.txid.as_str());
    push_line(&mut text, report.input_address.as_str());
    push_line(&mut text, render_amount(report.input_amount).as_str());
    push_line(&mut text, report.payee_address.as_str());
    push_line(&mut text, render_amount(report.payee_amount).as_str());
    push_line(&mut text, report.change_address.as_str());
    push_line(&mut text, render_amount(report.change_amount).as_str());
    push_line(&mut text, render_amount(report.fee).as_str());
    push_line(&mut text, render_decimal(report.block_height).as_str());
    push_line(&mut text, report.block_hash.as_str());
    assert(text@ =~= report_text(report@));
    text
}

} // verus!
