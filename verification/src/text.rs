//! Verified text rendering: decimal and hex digits, decimal integers, the
//! stable `x,y` key under which a tile travels on the wire, and the default
//! display name of a freshly minted player.

use vstd::prelude::*;
use vstd::string::StringExecFns;

use crate::geometry::Position;

verus! {

/// The lowercase-free hex digit for a value in 0..16.
pub open spec fn hex_digit(d: int) -> char {
    if d == 0 {
        '0'
    } else if d == 1 {
        '1'
    } else if d == 2 {
        '2'
    } else if d == 3 {
        '3'
    } else if d == 4 {
        '4'
    } else if d == 5 {
        '5'
    } else if d == 6 {
        '6'
    } else if d == 7 {
        '7'
    } else if d == 8 {
        '8'
    } else if d == 9 {
        '9'
    } else if d == 10 {
        'A'
    } else if d == 11 {
        'B'
    } else if d == 12 {
        'C'
    } else if d == 13 {
        'D'
    } else if d == 14 {
        'E'
    } else {
        'F'
    }
}

/// The decimal digit for a value in 0..10.
pub open spec fn dec_digit(d: int) -> char {
    hex_digit(if 0 <= d < 10 {
        d
    } else {
        0
    })
}

/// The decimal rendering of a non-negative integer, most significant digit
/// first, without leading zeros (`0` itself excepted).
pub open spec fn dec_chars(n: int) -> Seq<char>
    decreases n,
{
    if n < 10 {
        seq![dec_digit(n)]
    } else {
        dec_chars(n / 10) + seq![dec_digit(n % 10)]
    }
}

/// The decimal rendering of a signed integer: a minus sign before the
/// magnitude when negative.
pub open spec fn int_chars(v: int) -> Seq<char> {
    if v < 0 {
        seq!['-'] + dec_chars(-v)
    } else {
        dec_chars(v)
    }
}

/// The stable string key of a position on the wire: `x,y` in decimal.
pub open spec fn position_key_spec(p: Position) -> Seq<char> {
    int_chars(p.x as int) + seq![','] + int_chars(p.y as int)
}

/// The default display name of player `id`.
pub open spec fn default_name_spec(id: u32) -> Seq<char> {
    seq!['P', 'l', 'a', 'y', 'e', 'r', ' '] + dec_chars(id as int)
}

/// The one-character string slice holding the hex digit of `d % 16`.
pub fn hex_digit_str(d: u8) -> (r: &'static str)
    requires
        d < 16,
    ensures
        r@ == seq![hex_digit(d as int)],
{
    proof {
        reveal_strlit("0");
        reveal_strlit("1");
        reveal_strlit("2");
        reveal_strlit("3");
        reveal_strlit("4");
        reveal_strlit("5");
        reveal_strlit("6");
        reveal_strlit("7");
        reveal_strlit("8");
        reveal_strlit("9");
        reveal_strlit("A");
        reveal_strlit("B");
        reveal_strlit("C");
        reveal_strlit("D");
        reveal_strlit("E");
        reveal_strlit("F");
    }
    match d {
        0 => "0",
        1 => "1",
        2 => "2",
        3 => "3",
        4 => "4",
        5 => "5",
        6 => "6",
        7 => "7",
        8 => "8",
        9 => "9",
        10 => "A",
        11 => "B",
        12 => "C",
        13 => "D",
        14 => "E",
        _ => "F",
    }
}

/// The decimal string of an unsigned 64-bit value.
pub fn u64_to_dec(n: u64) -> (r: String)
    ensures
        r@ == dec_chars(n as int),
    decreases n,
{
    if n < 10 {
        hex_digit_str(n as u8).to_owned()
    } else {
        let mut s = u64_to_dec(n / 10);
        s.append(hex_digit_str((n % 10) as u8));
        s
    }
}

/// The decimal string of a signed 64-bit value.
pub fn i64_to_dec(v: i64) -> (r: String)
    ensures
        r@ == int_chars(v as int),
{
    if v >= 0 {
        u64_to_dec(v as u64)
    } else {
        // Two-step magnitude so that the smallest value does not overflow.
        let almost: i64 = -(v + 1);
        let mag: u64 = almost as u64 + 1;
        assert(mag as int == -(v as int));
        proof {
            reveal_strlit("-");
        }
        let mut s = "-".to_owned();
        s.append(u64_to_dec(mag).as_str());
        s
    }
}

/// The stable `x,y` wire key of a position.
pub fn position_key(p: Position) -> (r: String)
    ensures
        r@ == position_key_spec(p),
{
    proof {
        reveal_strlit(",");
    }
    let mut s = i64_to_dec(p.x);
    s.append(",");
    s.append(i64_to_dec(p.y).as_str());
    s
}

/// The default display name of a freshly minted player.
pub fn default_name(id: u32) -> (r: String)
    ensures
        r@ == default_name_spec(id),
{
    proof {
        reveal_strlit("Player ");
    }
    let mut s = "Player ".to_owned();
    s.append(u64_to_dec(id as u64).as_str());
    s
}

} // verus!
