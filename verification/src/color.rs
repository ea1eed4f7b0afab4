//! Player colors: a pseudo-random but reproducible color per player id,
//! rendered as a `#RRGGBB` hex string.

use vstd::prelude::*;

use crate::text::{hex_digit, hex_digit_str};

verus! {

/// The three channel values (each in 0..65536) derived from `n` by
/// multiplicative hashing.
pub open spec fn nth_color_spec(n: u32) -> (int, int, int) {
    ((54787 * n) % 65536, (25867 * n) % 65536, (9337 * n) % 65536)
}

/// The two uppercase hex digits of a byte value `b` in 0..256.
pub open spec fn hex_byte_chars(b: int) -> Seq<char> {
    seq![hex_digit(b / 16), hex_digit(b % 16)]
}

/// The `#RRGGBB` rendering of the color of player `n`: each 16-bit channel
/// reduced to its high byte.
pub open spec fn color_hex_spec(n: u32) -> Seq<char> {
    let (red, green, blue) = nth_color_spec(n);
    seq!['#'] + hex_byte_chars(red / 256) + hex_byte_chars(green / 256) + hex_byte_chars(
        blue / 256,
    )
}

/// The color channels assigned to the `n`-th player.
pub fn get_nth_color(n: u32) -> (r: (u16, u16, u16))
    ensures
        (r.0 as int, r.1 as int, r.2 as int) == nth_color_spec(n),
{
    let red = ((54787u64 * n as u64) % 65536) as u16;
    let green = ((25867u64 * n as u64) % 65536) as u16;
    let blue = ((9337u64 * n as u64) % 65536) as u16;
    (red, green, blue)
}

/// The `#RRGGBB` color string assigned to a player id.
pub fn get_player_color_hex(player_id: u32) -> (r: String)
    ensures
        r@ == color_hex_spec(player_id),
{
    let (red, green, blue) = get_nth_color(player_id);
    let mut s = hash_mark();
    append_byte_hex(&mut s, (red / 256) as u8);
    append_byte_hex(&mut s, (green / 256) as u8);
    append_byte_hex(&mut s, (blue / 256) as u8);
    s
}

fn hash_mark() -> (r: String)
    ensures
        r@ == seq!['#'],
{
    proof {
        reveal_strlit("#");
    }
    let r = String::new();
    r.concat("#")
}

fn append_byte_hex(s: &mut String, b: u8)
    ensures
        final(s)@ == old(s)@ + hex_byte_chars(b as int),
{
    s.append(hex_digit_str(b / 16));
    s.append(hex_digit_str(b % 16));
}

} // verus!
