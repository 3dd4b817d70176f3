use vstd::arithmetic::div_mod::lemma_mod_multiples_vanish;
use vstd::prelude::*;

verus! {

pub const SECONDS_PER_DAY: i64 = 86400;

/// The decimal digit `d` (0 to 9) as a character.
pub open spec fn digit_char(d: int) -> char {
    seq!['0', '1', '2', '3', '4', '5', '6', '7', '8', '9'][d]
}

/// `n` (0 to 99) as exactly two decimal digits.
pub open spec fn two_digits(n: int) -> Seq<char> {
    seq![digit_char(n / 10), digit_char(n % 10)]
}

/// The hour of a 24-hour clock shown on a 12-hour clock, space-padded to two characters.
pub open spec fn hour12_text(h24: int) -> Seq<char> {
    let h = if h24 % 12 == 0 { 12 } else { h24 % 12 };
    if h < 10 {
        seq![' ', digit_char(h)]
    } else {
        two_digits(h)
    }
}

/// A UTC offset in seconds as a sign and four digits `±HHMM`, rounded to the nearest minute.
pub open spec fn offset_text(offset: int) -> Seq<char> {
    let sign = if offset < 0 { '-' } else { '+' };
    let mag = if offset < 0 { -offset } else { offset };
    let mins = (mag + 30) / 60;
    seq![sign] + two_digits(mins / 60) + two_digits(mins % 60)
}

/// Seconds since local midnight of the instant `utc` (seconds since the epoch) seen at `offset`.
pub open spec fn second_of_day(utc: int, offset: int) -> int {
    (utc + offset) % (SECONDS_PER_DAY as int)
}

/// The wall-clock time of instant `utc` at `offset`, as `H:MM AM/PM ±HHMM`.
pub open spec fn time_text(utc: int, offset: int) -> Seq<char> {
    let sod = second_of_day(utc, offset);
    let h24 = sod / 3600;
    let minute = (sod % 3600) / 60;
    let meridiem = if h24 < 12 { seq!['A', 'M'] } else { seq!['P', 'M'] };
    hour12_text(h24) + seq![':'] + two_digits(minute) + seq![' '] + meridiem + seq![' ']
        + offset_text(offset)
}

/// Appends the decimal digit `d` to `s`.
pub fn push_digit(s: &mut String, d: u64)
    requires
        d < 10,
    ensures
        final(s)@ == old(s)@ + seq![digit_char(d as int)],
{
    let lit = match d {
        0 => "0",
        1 => "1",
        2 => "2",
        3 => "3",
        4 => "4",
        5 => "5",
        6 => "6",
        7 => "7",
        8 => "8",
        _ => "9",
    };
    proof {
        reveal_strlit("0");
        reveal_strlit("1");
        reveal_strlit("2");
        reveal_strlit("3");
        reveal_strlit("4");
        reveal_strlit("5");
        reveal_strlit("6");
        reveal_strlit("7");
        reveal_strlit("8");
        reveal_strlit("9");
    }
    s.append(lit);
}

/// Appends `n` (below 100) to `s` as two digits.
pub fn push_two_digits(s: &mut String, n: u64)
    requires
        n < 100,
    ensures
        final(s)@ == old(s)@ + two_digits(n as int),
{
    push_digit(s, n / 10);
    push_digit(s, n % 10);
    assert(final(s)@ =~= old(s)@ + two_digits(n as int));
}

/// Appends the literal `lit` to `s`.
fn push_lit(s: &mut String, lit: &str)
    ensures
        final(s)@ == old(s)@ + lit@,
{
    s.append(lit);
}

/// Renders the wall-clock time of instant `utc` at UTC offset `offset` (in seconds).
pub fn time_text_of(utc: i64, offset: i32) -> (r: String)
    requires
        -86400 < offset < 86400,
    ensures
        r@ == time_text(utc as int, offset as int),
{
    let local: i128 = utc as i128 + offset as i128;
    let shift: i128 = 86400 * 140737488355328;
    let shifted: i128 = local + shift;
    let sod: u64 = ((shifted as u128) % 86400) as u64;
    proof {
        lemma_mod_multiples_vanish(140737488355328, local as int, 86400);
        assert(sod as int == second_of_day(utc as int, offset as int));
    }
    let h24: u64 = sod / 3600;
    let minute: u64 = (sod % 3600) / 60;
    let h12: u64 = if h24 % 12 == 0 { 12 } else { h24 % 12 };
    let mut s = String::new();
    proof {
        reveal_strlit(" ");
        reveal_strlit(":");
        reveal_strlit("AM");
        reveal_strlit("PM");
        reveal_strlit("+");
        reveal_strlit("-");
    }
    if h12 < 10 {
        push_lit(&mut s, " ");
        push_digit(&mut s, h12);
    } else {
        push_two_digits(&mut s, h12);
    }
    assert(s@ =~= hour12_text(h24 as int));
    push_lit(&mut s, ":");
    push_two_digits(&mut s, minute);
    push_lit(&mut s, " ");
    if h24 < 12 {
        push_lit(&mut s, "AM");
    } else {
        push_lit(&mut s, "PM");
    }
    push_lit(&mut s, " ");
    let ghost before_offset = s@;
    let mag: u64 = if offset < 0 { (-(offset as i64)) as u64 } else { offset as u64 };
    let mins: u64 = (mag + 30) / 60;
    if offset < 0 {
        push_lit(&mut s, "-");
    } else {
        push_lit(&mut s, "+");
    }
    push_two_digits(&mut s, mins / 60);
    push_two_digits(&mut s, mins % 60);
    assert(s@ =~= before_offset + offset_text(offset as int));
    assert(s@ =~= time_text(utc as int, offset as int));
    s
}

} // verus!
