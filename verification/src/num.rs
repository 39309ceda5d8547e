//! Decimal rendering of integers, used in notes, session logs and the
//! state encoding.

use vstd::prelude::*;
use crate::text::chars_of;
use crate::text::string_of;

verus! {

pub open spec fn digit_char(d: int) -> char {
    if d == 0 {
        '0'
    } else if d == 1 {
        '1'
    } else if d == 2 {
        '2'
    } else if d == 3 {
        '3'
    } else if d == 4 {
        '4'
    } else if d == 5 {
        '5'
    } else if d == 6 {
        '6'
    } else if d == 7 {
        '7'
    } else if d == 8 {
        '8'
    } else {
        '9'
    }
}

/// The decimal digits of a non-negative integer, most significant first.
pub open spec fn dec_digits(n: int) -> Seq<char>
    decreases n,
{
    if n < 10 {
        seq![digit_char(n)]
    } else {
        dec_digits(n / 10).push(digit_char(n % 10))
    }
}

/// The decimal rendering of an integer, with a leading `-` when negative.
pub open spec fn dec_int(n: int) -> Seq<char> {
    if n < 0 {
        seq!['-'] + dec_digits(-n)
    } else {
        dec_digits(n)
    }
}

fn digit_exec(d: u64) -> (c: char)
    requires
        d < 10,
    ensures
        c == digit_char(d as int),
{
    if d == 0 {
        '0'
    } else if d == 1 {
        '1'
    } else if d == 2 {
        '2'
    } else if d == 3 {
        '3'
    } else if d == 4 {
        '4'
    } else if d == 5 {
        '5'
    } else if d == 6 {
        '6'
    } else if d == 7 {
        '7'
    } else if d == 8 {
        '8'
    } else {
        '9'
    }
}

/// The decimal digits of `n`.
pub fn dec_u64(n: u64) -> (v: Vec<char>)
    ensures
        v@ == dec_digits(n as int),
    decreases n,
{
    if n < 10 {
        let mut v: Vec<char> = Vec::new();
        v.push(digit_exec(n));
        proof {
            assert(v@ =~= seq![digit_char(n as int)]);
        }
        v
    } else {
        let mut v = dec_u64(n / 10);
        v.push(digit_exec(n % 10));
        v
    }
}

/// The decimal rendering of `n` as characters.
pub fn dec_i64(n: i64) -> (v: Vec<char>)
    ensures
        v@ == dec_int(n as int),
{
    if n >= 0 {
        dec_u64(n as u64)
    } else {
        let wide: i128 = -(n as i128);
        proof {
            assert(0 <= wide < 0x10000000000000000);
        }
        let mag: u64 = wide as u64;
        let digits = dec_u64(mag);
        let mut v: Vec<char> = Vec::new();
        v.push('-');
        let mut d = digits;
        v.append(&mut d);
        proof {
            assert(v@ =~= seq!['-'] + dec_digits(mag as int));
        }
        v
    }
}

/// An optional exit code rendered the way a status note and a session
/// log show it: `None`, or `Some(` the decimal code `)`.
pub open spec fn code_debug(code: Option<i32>) -> Seq<char> {
    match code {
        None => "None"@,
        Some(c) => "Some("@ + dec_int(c as int) + ")"@,
    }
}

pub fn code_debug_text(code: Option<i32>) -> (r: String)
    ensures
        r@ == code_debug(code),
{
    match code {
        None => "None".to_owned(),
        Some(c) => {
            let mut v = chars_of("Some(");
            let mut d = dec_i64(c as i64);
            v.append(&mut d);
            let mut p = chars_of(")");
            v.append(&mut p);
            string_of(&v)
        },
    }
}

} // verus!
