//! Reading a rendered report back: what the text of an amount stands for, and
//! which lines the text of a report has.

use vstd::prelude::*;
use crate::render::{
    FRACTION_PLACES, UNITS_PER_COIN, amount_text, decimal_text, digit_char, fraction_text, line,
    padded_digits, report_text,
};
use crate::report::ReportView;

verus! {

/// `c` is one of the ten decimal digits.
pub open spec fn is_digit(c: char) -> bool {
    c == '0' || c == '1' || c == '2' || c == '3' || c == '4' || c == '5' || c == '6' || c == '7'
        || c == '8' || c == '9'
}

/// The number that a decimal digit stands for.
pub open spec fn digit_value(c: char) -> nat {
    if c == '1' {
        1
    } else if c == '2' {
        2
    } else if c == '3' {
        3
    } else if c == '4' {
        4
    } else if c == '5' {
        5
    } else if c == '6' {
        6
    } else if c == '7' {
        7
    } else if c == '8' {
        8
    } else if c == '9' {
        9
    } else {
        0
    }
}

/// Every character of `text` is a decimal digit.
pub open spec fn only_digits(text: Seq<char>) -> bool {
    forall|i: int| 0 <= i < text.len() ==> is_digit(#[trigger] text[i])
}

/// The number that a run of decimal digits stands for.
pub open spec fn number_of(digits: Seq<char>) -> nat
    decreases digits.len(),
{
    if digits.len() == 0 {
        0
    } else {
        number_of(digits.drop_last()) * 10 + digit_value(digits.last())
    }
}

/// Ten to the power of `e`.
pub open spec fn pow10(e: nat) -> nat
    decreases e,
{
    if e == 0 {
        1
    } else {
        10 * pow10((e - 1) as nat)
    }
}

/// `i` is where the whole part of `text` ends: at the first point, or at the
/// end of a text without one.
pub open spec fn is_point_position(text: Seq<char>, i: int) -> bool {
    &&& 0 <= i <= text.len()
    &&& i < text.len() ==> text[i] == '.'
    &&& forall|j: int| 0 <= j < i ==> #[trigger] text[j] != '.'
}

/// The amount, in smallest units, that a decimal text in display units stands
/// for: the digits before the point count display units, and the digits after
/// it count tenths, hundredths and so on, down to the smallest unit.
pub open spec fn units_of(text: Seq<char>) -> nat {
    let i = choose|i: int| is_point_position(text, i);
    let fraction = if i < text.len() {
        text.skip(i + 1)
    } else {
        Seq::empty()
    };
    number_of(text.take(i)) * (UNITS_PER_COIN as nat) + number_of(fraction) * pow10(
        (FRACTION_PLACES - fraction.len()) as nat,
    )
}

/// The decimal text of a number is made of digits and stands for that number.
pub proof fn lemma_decimal_text_reads_back(n: nat)
    ensures
        number_of(decimal_text(n)) == n,
        only_digits(decimal_text(n)),
        decimal_text(n).len() >= 1,
    decreases n,
{
    if n >= 10 {
        lemma_decimal_text_reads_back(n / 10);
        let text = decimal_text(n / 10).push(digit_char(n % 10));
        assert(text.drop_last() =~= decimal_text(n / 10));
    } else {
        let text = seq![digit_char(n)];
        assert(text.drop_last() =~= Seq::<char>::empty());
        assert(number_of(text.drop_last()) == 0);
    }
}

proof fn lemma_padded_digits_read_back(n: nat, places: nat)
    requires
        n < pow10(places),
    ensures
        number_of(padded_digits(n, places)) == n,
        only_digits(padded_digits(n, places)),
        padded_digits(n, places).len() == places,
    decreases places,
{
    if places > 0 {
        lemma_padded_digits_read_back(n / 10, (places - 1) as nat);
        let text = padded_digits(n / 10, (places - 1) as nat).push(digit_char(n % 10));
        assert(text.drop_last() =~= padded_digits(n / 10, (places - 1) as nat));
    }
}

proof fn lemma_fraction_text_reads_back(fraction: nat, places: nat)
    requires
        0 < fraction < pow10(places),
    ensures
        only_digits(fraction_text(fraction, places)),
        1 <= fraction_text(fraction, places).len() <= places,
        number_of(fraction_text(fraction, places)) * pow10(
            (places - fraction_text(fraction, places).len()) as nat,
        ) == fraction,
    decreases places,
{
    if fraction % 10 == 0 {
        let shorter = (places - 1) as nat;
        lemma_fraction_text_reads_back(fraction / 10, shorter);
        let text = fraction_text(fraction / 10, shorter);
        let value = number_of(text);
        let scale = pow10((shorter - text.len()) as nat);
        assert(pow10((places - text.len()) as nat) == 10 * scale);
        assert(value * (10 * scale) == 10 * (value * scale)) by (nonlinear_arith);
    } else {
        lemma_padded_digits_read_back(fraction, places);
        assert(pow10(0) == 1);
        assert(fraction * 1 == fraction);
    }
}

/// Nothing is lost in writing an amount: the text of an amount stands for that
/// amount, to the smallest unit.
pub proof fn lemma_amount_text_reads_back(units: nat)
    ensures
        units_of(amount_text(units)) == units,
{
    let coin = UNITS_PER_COIN as nat;
    let whole = decimal_text(units / coin);
    let fraction = units % coin;
    let text = amount_text(units);
    lemma_decimal_text_reads_back(units / coin);
    assert(pow10(8) == 100_000_000) by {
        reveal_with_fuel(pow10, 9);
    }
    assert(units == (units / coin) * coin + fraction) by {
        assert(coin == 100_000_000);
    }
    let i = choose|i: int| is_point_position(text, i);
    if fraction == 0 {
        assert(text == whole);
        assert(is_point_position(text, text.len() as int));
        assert(i == text.len()) by {
            if i < text.len() {
                assert(is_digit(text[i]));
            }
        }
        assert(text.take(i) =~= whole);
        assert(number_of(Seq::<char>::empty()) == 0);
        assert(units_of(text) == number_of(whole) * coin + 0 * pow10(FRACTION_PLACES as nat));
    } else {
        lemma_fraction_text_reads_back(fraction, FRACTION_PLACES as nat);
        let digits = fraction_text(fraction, FRACTION_PLACES as nat);
        let at = whole.len() as int;
        assert(text == whole.push('.') + digits);
        assert(text[at] == '.');
        assert forall|j: int| 0 <= j < at implies #[trigger] text[j] != '.' by {
            assert(text[j] == whole[j]);
            assert(is_digit(whole[j]));
        }
        assert(is_point_position(text, at));
        assert(i == at) by {
            if i < at {
                assert(text[i] == whole[i]);
                assert(is_digit(whole[i]));
            }
        }
        assert(text.take(i) =~= whole);
        assert(text.skip(i + 1) =~= digits);
        assert(units_of(text) == number_of(whole) * coin + number_of(digits) * pow10(
            (FRACTION_PLACES - digits.len()) as nat,
        ));
    }
}

/// Different amounts never share a text.
pub proof fn lemma_amount_text_is_injective(a: nat, b: nat)
    requires
        amount_text(a) == amount_text(b),
    ensures
        a == b,
{
    lemma_amount_text_reads_back(a);
    lemma_amount_text_reads_back(b);
}

/// `text` holds no line feed.
pub open spec fn single_line(text: Seq<char>) -> bool {
    forall|i: int| 0 <= i < text.len() ==> #[trigger] text[i] != '\n'
}

/// `i` is where the first line of `text` ends: the place of its first line
/// feed.
pub open spec fn is_line_end(text: Seq<char>, i: int) -> bool {
    &&& 0 <= i < text.len()
    &&& text[i] == '\n'
    &&& forall|j: int| 0 <= j < i ==> #[trigger] text[j] != '\n'
}

/// The lines of `text`, without their line feeds. Characters after the last
/// line feed make a line of their own.
pub open spec fn lines_of(text: Seq<char>) -> Seq<Seq<char>>
    decreases text.len(),
{
    if exists|i: int| is_line_end(text, i) {
        let i = choose|i: int| is_line_end(text, i);
        seq![text.take(i)] + lines_of(text.skip(i + 1))
    } else if text.len() == 0 {
        Seq::empty()
    } else {
        seq![text]
    }
}

proof fn lemma_first_line(value: Seq<char>, rest: Seq<char>)
    requires
        single_line(value),
    ensures
        lines_of(line(value) + rest) == seq![value] + lines_of(rest),
{
    let text = line(value) + rest;
    let at = value.len() as int;
    assert(text[at] == '\n');
    assert forall|j: int| 0 <= j < at implies #[trigger] text[j] != '\n' by {
        assert(text[j] == value[j]);
    }
    assert(is_line_end(text, at));
    let i = choose|i: int| is_line_end(text, i);
    assert(i == at) by {
        if i < at {
            assert(text[i] == value[i]);
        }
    }
    assert(text.take(at) =~= value);
    assert(text.skip(at + 1) =~= rest);
}

/// The text of a number or of an amount holds no line feed.
pub proof fn lemma_numbers_are_single_lines(n: nat)
    ensures
        single_line(decimal_text(n)),
        single_line(amount_text(n)),
{
    let coin = UNITS_PER_COIN as nat;
    lemma_decimal_text_reads_back(n);
    lemma_decimal_text_reads_back(n / coin);
    assert forall|i: int| 0 <= i < decimal_text(n).len() implies #[trigger] decimal_text(n)[i] != '\n' by {
        assert(is_digit(decimal_text(n)[i]));
    }
    let whole = decimal_text(n / coin);
    let text = amount_text(n);
    if n % coin == 0 {
        assert forall|i: int| 0 <= i < text.len() implies #[trigger] text[i] != '\n' by {
            assert(is_digit(whole[i]));
        }
    } else {
        assert(pow10(8) == 100_000_000) by {
            reveal_with_fuel(pow10, 9);
        }
        lemma_fraction_text_reads_back(n % coin, FRACTION_PLACES as nat);
        let digits = fraction_text(n % coin, FRACTION_PLACES as nat);
        assert forall|i: int| 0 <= i < text.len() implies #[trigger] text[i] != '\n' by {
            if i < whole.len() {
                assert(text[i] == whole[i]);
                assert(is_digit(whole[i]));
            } else if i > whole.len() {
                assert(text[i] == digits[i - whole.len() - 1]);
                assert(is_digit(digits[i - whole.len() - 1]));
            }
        }
    }
}

/// The ten values of a report, in the order in which its text holds them.
pub open spec fn report_lines(report: ReportView) -> Seq<Seq<char>> {
    seq![
        report.txid,
        report.input_address,
        amount_text(report.input_amount),
        report.payee_address,
        amount_text(report.payee_amount),
        report.change_address,
        amount_text(report.change_amount),
        amount_text(report.fee),
        decimal_text(report.block_height),
        report.block_hash,
    ]
}

/// The text that holds `values` one per line.
pub open spec fn joined(values: Seq<Seq<char>>) -> Seq<char>
    decreases values.len(),
{
    if values.len() == 0 {
        Seq::empty()
    } else {
        joined(values.drop_last()) + line(values.last())
    }
}

proof fn lemma_lines_of_joined(values: Seq<Seq<char>>, rest: Seq<char>)
    requires
        forall|k: int| 0 <= k < values.len() ==> single_line(#[trigger] values[k]),
    ensures
        lines_of(joined(values) + rest) == values + lines_of(rest),
    decreases values.len(),
{
    if values.len() == 0 {
        assert(joined(values) + rest =~= rest);
        assert(values + lines_of(rest) =~= lines_of(rest));
    } else {
        let front = values.drop_last();
        let last = values.last();
        lemma_first_line(last, rest);
        lemma_lines_of_joined(front, line(last) + rest);
        assert(joined(values) + rest =~= joined(front) + (line(last) + rest));
        assert(front + (seq![last] + lines_of(rest)) =~= values + lines_of(rest));
    }
}

proof fn lemma_joined_push(values: Seq<Seq<char>>, value: Seq<char>)
    ensures
        joined(values.push(value)) == joined(values) + line(value),
{
    assert(values.push(value).drop_last() =~= values);
}

/// The text of a report holds the ten values of the report, one per line.
pub proof fn lemma_report_text_is_joined(report: ReportView)
    ensures
        report_text(report) == joined(report_lines(report)),
{
    let v = report_lines(report);
    let v0 = Seq::<Seq<char>>::empty();
    let v1 = v0.push(v[0]);
    let v2 = v1.push(v[1]);
    let v3 = v2.push(v[2]);
    let v4 = v3.push(v[3]);
    let v5 = v4.push(v[4]);
    let v6 = v5.push(v[5]);
    let v7 = v6.push(v[6]);
    let v8 = v7.push(v[7]);
    let v9 = v8.push(v[8]);
    let v10 = v9.push(v[9]);
    lemma_joined_push(v0, v[0]);
    lemma_joined_push(v1, v[1]);
    lemma_joined_push(v2, v[2]);
    lemma_joined_push(v3, v[3]);
    lemma_joined_push(v4, v[4]);
    lemma_joined_push(v5, v[5]);
    lemma_joined_push(v6, v[6]);
    lemma_joined_push(v7, v[7]);
    lemma_joined_push(v8, v[8]);
    lemma_joined_push(v9, v[9]);
    assert(joined(v0) + line(v[0]) =~= line(v[0]));
    assert(v10 =~= v);
}

/// The text of a report has exactly ten lines, and they are the ten values of
/// the report in their fixed order, provided that no identifier and no address
/// holds a line feed itself.
pub proof fn lemma_report_text_has_ten_lines(report: ReportView)
    requires
        single_line(report.txid),
        single_line(report.input_address),
        single_line(report.payee_address),
        single_line(report.change_address),
        single_line(report.block_hash),
    ensures
        lines_of(report_text(report)) == report_lines(report),
        lines_of(report_text(report)).len() == 10,
{
    let v = report_lines(report);
    lemma_numbers_are_single_lines(report.input_amount);
    lemma_numbers_are_single_lines(report.payee_amount);
    lemma_numbers_are_single_lines(report.change_amount);
    lemma_numbers_are_single_lines(report.fee);
    lemma_numbers_are_single_lines(report.block_height);
    lemma_report_text_is_joined(report);
    let nothing = Seq::<char>::empty();
    assert(!exists|i: int| is_line_end(nothing, i));
    assert(lines_of(nothing) =~= Seq::<Seq<char>>::empty());
    lemma_lines_of_joined(v, nothing);
    assert(joined(v) + nothing =~= joined(v));
    assert(v + lines_of(nothing) =~= v);
}

} // verus!
