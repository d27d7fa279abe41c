//! Parsing of textual hex color tokens (`#RRGGBB` or `#RRGGBBAA`) into pixels.
//!
//! Parsing is deliberately lenient: a channel whose two characters are not
//! hex digits, or that runs past the end of the token, resolves to 0 instead
//! of failing. The alpha channel defaults to 255 when the token carries no
//! alpha digits at all.

use vstd::prelude::*;

use crate::Pixel;

verus! {

/// The value of one hex digit, case-insensitive; `None` for any other character.
pub open spec fn hex_digit(c: char) -> Option<u8> {
    let u = c as u32;
    if 48 <= u && u <= 57 {
        Some((u - 48) as u8)
    } else if 97 <= u && u <= 102 {
        Some((u - 87) as u8)
    } else if 65 <= u && u <= 70 {
        Some((u - 55) as u8)
    } else {
        None
    }
}

/// The channel read from the two characters at `[i, i+2)`: a base-16 byte,
/// or 0 when the slice is missing or not made of hex digits.
pub open spec fn channel_at(s: Seq<char>, i: int) -> u8 {
    if 0 <= i && i + 2 <= s.len() && hex_digit(s[i]) is Some && hex_digit(s[i + 1]) is Some {
        (16 * hex_digit(s[i])->0 + hex_digit(s[i + 1])->0) as u8
    } else {
        0
    }
}

/// A single optional leading `#` is stripped before channels are read.
pub open spec fn strip_hash(s: Seq<char>) -> Seq<char> {
    if s.len() > 0 && s[0] == '#' {
        s.drop_first()
    } else {
        s
    }
}

/// The pixel a color token denotes: channels at `[0,2)`, `[2,4)`, `[4,6)`,
/// and alpha at `[6,8)` when at least 8 characters remain, else 255.
pub open spec fn parsed_color(s: Seq<char>) -> Pixel {
    let h = strip_hash(s);
    Pixel {
        r: channel_at(h, 0),
        g: channel_at(h, 2),
        b: channel_at(h, 4),
        a: if h.len() >= 8 {
            channel_at(h, 6)
        } else {
            255
        },
    }
}

/// The default pixel every buffer cell starts from: fully transparent black.
pub open spec fn zero_pixel() -> Pixel {
    Pixel { r: 0, g: 0, b: 0, a: 0 }
}

/// The characters of a string, collected so they can be indexed.
pub fn chars_vec(s: &str) -> (v: Vec<char>)
    ensures
        v@ == s@,
{
    let mut v: Vec<char> = Vec::new();
    for c in it: s.chars()
        invariant
            it.seq() == s@,
            v@ == it.seq().take(it.index() as int),
    {
        v.push(c);
    }
    assert(v@ =~= s@);
    v
}

fn hex_digit_exec(c: char) -> (r: Option<u8>)
    ensures
        r == hex_digit(c),
{
    let u = c as u32;
    if 48 <= u && u <= 57 {
        Some((u - 48) as u8)
    } else if 97 <= u && u <= 102 {
        Some((u - 87) as u8)
    } else if 65 <= u && u <= 70 {
        Some((u - 55) as u8)
    } else {
        None
    }
}

fn channel_from(cs: &Vec<char>, i: usize) -> (r: u8)
    requires
        i + 2 <= usize::MAX,
    ensures
        r == channel_at(cs@, i as int),
{
    if i + 2 <= cs.len() {
        let hi = hex_digit_exec(cs[i]);
        let lo = hex_digit_exec(cs[i + 1]);
        match (hi, lo) {
            (Some(a), Some(b)) => 16 * a + b,
            _ => 0,
        }
    } else {
        0
    }
}

/// Parses a hex color token into a pixel. Never fails: malformed or missing
/// channels resolve to 0, a missing alpha channel to 255.
pub fn parse_hex_color(token: &str) -> (p: Pixel)
    ensures
        p == parsed_color(token@),
{
    let mut cs = chars_vec(token);
    if cs.len() > 0 && cs[0] == '#' {
        cs.remove(0);
        assert(cs@ =~= strip_hash(token@));
    }
    assert(cs@ == strip_hash(token@));
    let r = channel_from(&cs, 0);
    let g = channel_from(&cs, 2);
    let b = channel_from(&cs, 4);
    let a = if cs.len() >= 8 {
        channel_from(&cs, 6)
    } else {
        255
    };
    Pixel { r, g, b, a }
}

} // verus!
