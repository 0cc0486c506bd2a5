//! Text for people: numbers in decimal and in hexadecimal, as the messages of
//! the errors show them.

use vstd::prelude::*;

verus! {

/// `String::push` of std appends one character to the end of the string.
pub assume_specification[ std::string::String::push ](this: &mut String, ch: char)
    ensures
        final(this)@ == old(this)@.push(ch),
;

/// `String::push_str` of std appends a string slice to the end of the string.
pub assume_specification[ std::string::String::push_str ](this: &mut String, string: &str)
    ensures
        final(this)@ == old(this)@ + string@,
;

/// The character of the hexadecimal digit `d`, letters in upper case.
pub open spec fn digit_char(d: int) -> char {
    if d == 0 {
        '0'
    } else if d == 1 {
        '1'
    } else if d == 2 {
        '2'
    } else if d == 3 {
        '3'
    } else if d == 4 {
        '4'
    } else if d == 5 {
        '5'
    } else if d == 6 {
        '6'
    } else if d == 7 {
        '7'
    } else if d == 8 {
        '8'
    } else if d == 9 {
        '9'
    } else if d == 10 {
        'A'
    } else if d == 11 {
        'B'
    } else if d == 12 {
        'C'
    } else if d == 13 {
        'D'
    } else if d == 14 {
        'E'
    } else {
        'F'
    }
}

/// `byte` in hexadecimal, without leading zeros.
pub open spec fn hex_upper(byte: u8) -> Seq<char> {
    if byte < 16 {
        seq![digit_char(byte as int)]
    } else {
        seq![digit_char(byte as int / 16), digit_char(byte as int % 16)]
    }
}

/// `n` in decimal, without leading zeros.
pub open spec fn decimal(n: nat) -> Seq<char>
    decreases n,
{
    if n < 10 {
        seq![digit_char(n as int)]
    } else {
        decimal(n / 10).push(digit_char((n % 10) as int))
    }
}

/// The character of a hexadecimal digit.
fn digit(d: u8) -> (ch: char)
    requires
        d < 16,
    ensures
        ch == digit_char(d as int),
{
    match d {
        0 => '0',
        1 => '1',
        2 => '2',
        3 => '3',
        4 => '4',
        5 => '5',
        6 => '6',
        7 => '7',
        8 => '8',
        9 => '9',
        10 => 'A',
        11 => 'B',
        12 => 'C',
        13 => 'D',
        14 => 'E',
        _ => 'F',
    }
}

/// Appends `byte` in hexadecimal to `text`.
pub fn push_hex_upper(text: &mut String, byte: u8)
    ensures
        final(text)@ == old(text)@ + hex_upper(byte),
{
    if byte >= 16 {
        text.push(digit(byte / 16));
    }
    text.push(digit(byte % 16));
    assert(text@ =~= old(text)@ + hex_upper(byte));
}

/// Appends `n` in decimal to `text`.
pub fn push_decimal(text: &mut String, n: usize)
    ensures
        final(text)@ == old(text)@ + decimal(n as nat),
    decreases n,
{
    if n >= 10 {
        push_decimal(text, n / 10);
    }
    text.push(digit((n % 10) as u8));
    assert(text@ =~= old(text)@ + decimal(n as nat));
}

} // verus!
