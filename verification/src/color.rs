//! Colours as four bytes, and what is decided on the bytes alone.

use vstd::prelude::*;
use vstd::string::StrSliceExecFns;

verus! {

/// A colour with each channel as a byte.
#[derive(Clone, Copy, Debug, PartialEq, Eq)]
pub struct ColorBytes {
    pub red: u8,
    pub green: u8,
    pub blue: u8,
    pub alpha: u8,
}

/// `channel` moved by forty towards black, as far as black.
pub open spec fn darker(channel: u8) -> u8 {
    if channel < 40 {
        0u8
    } else {
        (channel - 40) as u8
    }
}

/// `channel` moved by forty towards white, as far as white.
pub open spec fn lighter(channel: u8) -> u8 {
    if channel > 215 {
        255u8
    } else {
        (channel + 40) as u8
    }
}

/// The value of the hexadecimal digit `digit`, in either case.
pub open spec fn hex_digit_value(digit: char) -> Option<u8> {
    if '0' <= digit <= '9' {
        Some((digit as u32 - '0' as u32) as u8)
    } else if 'a' <= digit <= 'f' {
        Some((digit as u32 - 'a' as u32 + 10) as u8)
    } else if 'A' <= digit <= 'F' {
        Some((digit as u32 - 'A' as u32 + 10) as u8)
    } else {
        None
    }
}

/// The channel that two characters give: two hexadecimal digits, or a `+`
/// and one.
pub open spec fn hex_channel(high: char, low: char) -> Option<u8> {
    match hex_digit_value(low) {
        None => None,
        Some(low) => if high == '+' {
            Some(low)
        } else {
            match hex_digit_value(high) {
                None => None,
                Some(high) => Some((16 * high + low) as u8),
            }
        },
    }
}

/// The colour that six characters give, two for each of red, green and blue,
/// without see-through. `None` where the text is not of that form.
pub open spec fn hex_color(hex: Seq<char>) -> Option<ColorBytes> {
    if hex.len() != 6 {
        None
    } else {
        match (hex_channel(hex[0], hex[1]), hex_channel(hex[2], hex[3]), hex_channel(hex[4], hex[5])) {
            (Some(red), Some(green), Some(blue)) => Some(ColorBytes { red, green, blue, alpha: 255 }),
            _ => None,
        }
    }
}

/// The value of the hexadecimal digit `digit`, in either case.
pub fn parse_hex_digit(digit: char) -> (value: Option<u8>)
    ensures
        value == hex_digit_value(digit),
        value matches Some(v) ==> v < 16,
{
    if '0' <= digit && digit <= '9' {
        Some((digit as u32 - '0' as u32) as u8)
    } else if 'a' <= digit && digit <= 'f' {
        Some((digit as u32 - 'a' as u32 + 10) as u8)
    } else if 'A' <= digit && digit <= 'F' {
        Some((digit as u32 - 'A' as u32 + 10) as u8)
    } else {
        None
    }
}

/// The channel that two characters give.
pub fn parse_hex_channel(high: char, low: char) -> (value: Option<u8>)
    ensures
        value == hex_channel(high, low),
{
    match parse_hex_digit(low) {
        None => None,
        Some(low) => if high == '+' {
            Some(low)
        } else {
            match parse_hex_digit(high) {
                None => None,
                Some(high) => Some(16 * high + low),
            }
        },
    }
}

impl ColorBytes {
    /// The colour a step darker where it is bright and a step lighter where
    /// it is dark, so that it stands out against itself. A colour counts as
    /// bright when red, green and blue add up to more than 382. The
    /// see-through stays.
    pub open spec fn shaded(self) -> ColorBytes {
        if self.red + self.green + self.blue > 382 {
            ColorBytes {
                red: darker(self.red),
                green: darker(self.green),
                blue: darker(self.blue),
                alpha: self.alpha,
            }
        } else {
            ColorBytes {
                red: lighter(self.red),
                green: lighter(self.green),
                blue: lighter(self.blue),
                alpha: self.alpha,
            }
        }
    }

    /// The colour a step darker where it is bright and a step lighter where
    /// it is dark.
    pub fn shade(&self) -> (shaded: ColorBytes)
        ensures
            shaded == self.shaded(),
    {
        if self.red as usize + self.green as usize + self.blue as usize > 382 {
            ColorBytes {
                red: self.red.saturating_sub(40),
                green: self.green.saturating_sub(40),
                blue: self.blue.saturating_sub(40),
                alpha: self.alpha,
            }
        } else {
            ColorBytes {
                red: self.red.saturating_add(40),
                green: self.green.saturating_add(40),
                blue: self.blue.saturating_add(40),
                alpha: self.alpha,
            }
        }
    }

    /// The colour that a text such as `ff8000` names. `None` where the text
    /// is not six characters that give three channels.
    pub fn rgb_hex(hex: &str) -> (color: Option<ColorBytes>)
        ensures
            color == hex_color(hex@),
    {
        if hex.unicode_len() != 6 {
            return None;
        }
        let red = parse_hex_channel(hex.get_char(0), hex.get_char(1));
        let green = parse_hex_channel(hex.get_char(2), hex.get_char(3));
        let blue = parse_hex_channel(hex.get_char(4), hex.get_char(5));
        match (red, green, blue) {
            (Some(red), Some(green), Some(blue)) => Some(ColorBytes { red, green, blue, alpha: 255 }),
            _ => None,
        }
    }

    /// The channel that a number from a script gives: the number itself,
    /// held between 0 and 255.
    pub fn channel_from_number(value: i64) -> (channel: u8)
        ensures
            channel == (if value < 0 {
                0
            } else if value > 255 {
                255
            } else {
                value
            }),
    {
        if value < 0 {
            0
        } else if value > 255 {
            255
        } else {
            value as u8
        }
    }
}

} // verus!
