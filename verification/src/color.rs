//! Colours written as `#rrggbb`, and an estimate of the contrast between
//! two of them.

use crate::text::to_chars;
use vstd::prelude::*;

verus! {

/// A colour: red, green and blue.
pub type Color = (u8, u8, u8);

/// Whether a character is a hexadecimal digit.
pub open spec fn is_hex_digit(c: char) -> bool {
    ||| '0' <= c <= '9'
    ||| 'a' <= c <= 'f'
    ||| 'A' <= c <= 'F'
}

/// The number that a hexadecimal digit stands for.
pub open spec fn hex_value(c: char) -> int {
    if '0' <= c <= '9' {
        c as u32 - '0' as u32
    } else if 'a' <= c <= 'f' {
        c as u32 - 'a' as u32 + 10
    } else {
        c as u32 - 'A' as u32 + 10
    }
}

/// Whether a text is `#` and six hexadecimal digits, and nothing else.
pub open spec fn is_hex_color(s: Seq<char>) -> bool {
    &&& s.len() == 7
    &&& s[0] == '#'
    &&& forall|i: int| 1 <= i < 7 ==> is_hex_digit(#[trigger] s[i])
}

/// The channel that two hexadecimal digits write.
pub open spec fn channel(high: char, low: char) -> u8 {
    (16 * hex_value(high) + hex_value(low)) as u8
}

/// The colour that a text writes: `Some` for `#rrggbb`, `None` for any
/// other text.
pub open spec fn hex_color(s: Seq<char>) -> Option<Color> {
    if is_hex_color(s) {
        Some((channel(s[1], s[2]), channel(s[3], s[4]), channel(s[5], s[6])))
    } else {
        None
    }
}

/// The number that a hexadecimal digit stands for, or `None` for another
/// character.
pub fn hex_digit(c: char) -> (d: Option<u8>)
    ensures
        d is Some <==> is_hex_digit(c),
        d is Some ==> d->0 == hex_value(c),
{
    if '0' <= c && c <= '9' {
        Some((c as u32 - '0' as u32) as u8)
    } else if 'a' <= c && c <= 'f' {
        Some((c as u32 - 'a' as u32 + 10) as u8)
    } else if 'A' <= c && c <= 'F' {
        Some((c as u32 - 'A' as u32 + 10) as u8)
    } else {
        None
    }
}

/// The channel that two hexadecimal digits write, or `None` where one
/// of the two is no such digit.
fn hex_pair(high: char, low: char) -> (value: Option<u8>)
    ensures
        value is Some <==> is_hex_digit(high) && is_hex_digit(low),
        value is Some ==> value->0 == channel(high, low),
{
    match (hex_digit(high), hex_digit(low)) {
        (Some(h), Some(l)) => Some(16 * h + l),
        _ => None,
    }
}

/// Reads a colour written as `#rrggbb`.
pub fn hex_to_rgb(hex: &str) -> (color: Option<Color>)
    ensures
        color == hex_color(hex@),
{
    let chars = to_chars(hex);
    if chars.len() != 7 || chars[0] != '#' {
        return None;
    }
    match (hex_pair(chars[1], chars[2]), hex_pair(chars[3], chars[4]), hex_pair(chars[5], chars[6])) {
        (Some(r), Some(g), Some(b)) => Some((r, g, b)),
        _ => None,
    }
}

/// The brightness of a colour, in ten-thousandths: red weighs 0.2126,
/// green 0.7152 and blue 0.0722. The channels enter as they are, from 0
/// to 255, with no gamma correction.
pub open spec fn luminance(c: Color) -> int {
    2126 * c.0 + 7152 * c.1 + 722 * c.2
}

/// Whether two colours are far enough apart in brightness: the ratio of
/// the brighter to the darker, each raised by 0.05, is above 4.5. With
/// both sides in ten-thousandths, 0.05 is 500.
pub open spec fn contrast_ok(foreground: Color, background: Color) -> bool {
    let l1 = luminance(foreground);
    let l2 = luminance(background);
    if l1 > l2 {
        10 * (l1 + 500) > 45 * (l2 + 500)
    } else {
        10 * (l2 + 500) > 45 * (l1 + 500)
    }
}

/// Whether text in one colour can be read on a ground of the other.
pub fn estimate_contrast_ok(foreground: Color, background: Color) -> (ok: bool)
    ensures
        ok == contrast_ok(foreground, background),
{
    let l1: u32 = 2126 * (foreground.0 as u32) + 7152 * (foreground.1 as u32) + 722 * (
    foreground.2 as u32);
    let l2: u32 = 2126 * (background.0 as u32) + 7152 * (background.1 as u32) + 722 * (
    background.2 as u32);
    if l1 > l2 {
        10 * (l1 + 500) > 45 * (l2 + 500)
    } else {
        10 * (l2 + 500) > 45 * (l1 + 500)
    }
}

/// Whether two colours, each written as `#rrggbb`, are far enough apart.
/// A text that is no such colour makes the answer `false`.
pub open spec fn written_contrast_ok(foreground: Seq<char>, background: Seq<char>) -> bool {
    match (hex_color(foreground), hex_color(background)) {
        (Some(fg), Some(bg)) => contrast_ok(fg, bg),
        _ => false,
    }
}

/// Whether text in one colour can be read on a ground of the other, the
/// two written as `#rrggbb`.
pub fn is_contrast_ok(fg: &str, bg: &str) -> (ok: bool)
    ensures
        ok == written_contrast_ok(fg@, bg@),
{
    match hex_to_rgb(fg) {
        Some(foreground) => match hex_to_rgb(bg) {
            Some(background) => estimate_contrast_ok(foreground, background),
            None => false,
        },
        None => false,
    }
}

} // verus!
