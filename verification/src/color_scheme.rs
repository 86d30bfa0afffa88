//! Colour palettes and the parsing of `#rrggbb` hex colour codes into sRGB bytes.
//!
//! The conversion of these bytes to linear floating-point colours happens
//! outside this crate; here a colour is the three 8-bit sRGB channels that a
//! hex code spells out.

use vstd::prelude::*;
use vstd::string::StringSliceAdditionalSpecFns;
use vstd::utf8::{is_ascii_chars, is_ascii_chars_encode_utf8, is_continuation_byte};

verus! {

/// The colour palettes that a configuration can choose.
#[derive(Clone, Copy, Debug, PartialEq, Eq)]
pub enum Palette {
    Pastel,
    Light,
    Debug,
}

/// An sRGB colour with 8 bits per channel.
#[derive(Clone, Copy, Debug, PartialEq, Eq)]
pub struct Srgb8 {
    pub r: u8,
    pub g: u8,
    pub b: u8,
}

/// The sRGB colours of a palette, one per drawn element.
#[derive(Clone, Copy, Debug, PartialEq, Eq)]
pub struct PaletteSrgb8 {
    pub background: Srgb8,
    pub forager: Srgb8,
    pub scout: Srgb8,
    pub homing_pheromone: Srgb8,
    pub food_pheromone: Srgb8,
    pub food: Srgb8,
}

/// The byte of `#`.
pub const HASH_BYTE: u8 = 0x23;

/// The byte of `+`.
pub const PLUS_BYTE: u8 = 0x2b;

/// Value of a hexadecimal digit byte (`0-9`, `a-f`, `A-F`), if it is one.
pub open spec fn hex_digit_value(b: u8) -> Option<u8> {
    if 0x30 <= b <= 0x39 {
        Some((b - 0x30) as u8)
    } else if 0x61 <= b <= 0x66 {
        Some((b - 0x61 + 10) as u8)
    } else if 0x41 <= b <= 0x46 {
        Some((b - 0x41 + 10) as u8)
    } else {
        None
    }
}

/// A two-byte field read as a base-16 `u8`, `0` when it is not one: either
/// two hex digits, or `+` and one hex digit.
pub open spec fn hex_field_value(hi: u8, lo: u8) -> u8 {
    if hi == PLUS_BYTE {
        match hex_digit_value(lo) {
            Some(d) => d,
            None => 0,
        }
    } else {
        match (hex_digit_value(hi), hex_digit_value(lo)) {
            (Some(h), Some(l)) => (16 * h + l) as u8,
            _ => 0,
        }
    }
}

/// The bytes with every leading `#` removed.
pub open spec fn strip_hashes(s: Seq<u8>) -> Seq<u8>
    decreases s.len(),
{
    if s.len() > 0 && s[0] == HASH_BYTE {
        strip_hashes(s.drop_first())
    } else {
        s
    }
}

/// A string split at byte `p` keeps whole characters on both sides.
pub open spec fn splits_at(s: Seq<u8>, p: int) -> bool {
    p == s.len() || (0 <= p < s.len() && !is_continuation_byte(s[p]))
}

/// After the leading `#`s there are at least six bytes, and cutting them at
/// bytes 2, 4 and 6 does not cut through a character.
pub open spec fn hex_color_parsable(s: Seq<u8>) -> bool {
    let t = strip_hashes(s);
    &&& t.len() >= 6
    &&& splits_at(t, 2)
    &&& splits_at(t, 4)
    &&& splits_at(t, 6)
}

/// The colour that a hex code spells out: the three two-byte fields after
/// the leading `#`s, each read as a base-16 byte (or `0` if it is not one).
pub open spec fn parse_hex_color(s: Seq<u8>) -> Srgb8 {
    let t = strip_hashes(s);
    Srgb8 {
        r: hex_field_value(t[0], t[1]),
        g: hex_field_value(t[2], t[3]),
        b: hex_field_value(t[4], t[5]),
    }
}

/// Value of one hex digit byte.
fn hex_digit(b: u8) -> (value: Option<u8>)
    ensures
        value == hex_digit_value(b),
{
    // '0'..='9', 'a'..='f', 'A'..='F'
    if 0x30u8 <= b && b <= 0x39u8 {
        Some(b - 0x30u8)
    } else if 0x61u8 <= b && b <= 0x66u8 {
        Some(b - 0x61u8 + 10)
    } else if 0x41u8 <= b && b <= 0x46u8 {
        Some(b - 0x41u8 + 10)
    } else {
        None
    }
}

/// Reads a two-byte field as a base-16 `u8`, giving `0` when it is not one.
fn hex_field(hi: u8, lo: u8) -> (value: u8)
    ensures
        value == hex_field_value(hi, lo),
{
    if hi == PLUS_BYTE {
        match hex_digit(lo) {
            Some(d) => d,
            None => 0,
        }
    } else {
        match (hex_digit(hi), hex_digit(lo)) {
            (Some(h), Some(l)) => 16 * h + l,
            _ => 0,
        }
    }
}

/// Parse hex color string (e.g., "#4c054d" or "4c054d") to its sRGB bytes.
/// A field that is not a base-16 number reads as `0`.
pub fn hex_to_srgb8(hex: &str) -> (color: Srgb8)
    requires
        hex_color_parsable(hex.spec_bytes()),
    ensures
        color == parse_hex_color(hex.spec_bytes()),
{
    let bytes = hex.as_bytes();
    let ghost s = bytes@;
    let mut i: usize = 0;
    assert(bytes@.skip(0) =~= bytes@);
    while i < bytes.len() && bytes[i] == HASH_BYTE
        invariant
            s == bytes@,
            i <= bytes@.len(),
            strip_hashes(bytes@.skip(i as int)) == strip_hashes(s),
        decreases bytes@.len() - i,
    {
        assert(bytes@.skip(i as int).drop_first() =~= bytes@.skip(i + 1));
        i = i + 1;
    }
    let ghost t = bytes@.skip(i as int);
    assert(strip_hashes(t) == t);
    assert(t.len() >= 6);
    Srgb8 {
        r: hex_field(bytes[i], bytes[i + 1]),
        g: hex_field(bytes[i + 2], bytes[i + 3]),
        b: hex_field(bytes[i + 4], bytes[i + 5]),
    }
}

/// A leading `#` does not change how a hex code reads.
pub proof fn lemma_leading_hash_ignored(s: Seq<u8>)
    ensures
        strip_hashes(seq![HASH_BYTE] + s) == strip_hashes(s),
        hex_color_parsable(seq![HASH_BYTE] + s) == hex_color_parsable(s),
        parse_hex_color(seq![HASH_BYTE] + s) == parse_hex_color(s),
{
    assert((seq![HASH_BYTE] + s).drop_first() =~= s);
}

/// The lower-case spelling of the hex digit `d` (`0 <= d < 16`): `0-9`, `a-f`.
pub open spec fn lower_hex_byte(d: int) -> u8 {
    if d < 10 {
        (0x30 + d) as u8
    } else {
        (0x61 + d - 10) as u8
    }
}

/// The upper-case spelling of the hex digit `d` (`0 <= d < 16`): `0-9`, `A-F`.
pub open spec fn upper_hex_byte(d: int) -> u8 {
    if d < 10 {
        (0x30 + d) as u8
    } else {
        (0x41 + d - 10) as u8
    }
}

/// A field of two hex digits reads as the byte `16 * hi + lo`, whichever
/// case its letters are written in.
pub proof fn lemma_field_reads_digits(hi: int, lo: int)
    requires
        0 <= hi < 16,
        0 <= lo < 16,
    ensures
        hex_field_value(lower_hex_byte(hi), lower_hex_byte(lo)) == 16 * hi + lo,
        hex_field_value(upper_hex_byte(hi), upper_hex_byte(lo)) == 16 * hi + lo,
        hex_field_value(upper_hex_byte(hi), lower_hex_byte(lo)) == 16 * hi + lo,
        hex_field_value(lower_hex_byte(hi), upper_hex_byte(lo)) == 16 * hi + lo,
{
}

/// The byte with ASCII upper-case letters turned to lower case.
pub open spec fn ascii_lower_byte(b: u8) -> u8 {
    if 0x41 <= b <= 0x5a {
        (b + 0x20) as u8
    } else {
        b
    }
}

/// The bytes with ASCII upper-case letters turned to lower case.
pub open spec fn ascii_lower(s: Seq<u8>) -> Seq<u8> {
    Seq::new(s.len(), |i: int| ascii_lower_byte(s[i]))
}

/// Reading a field does not depend on the case of its letters.
pub proof fn lemma_field_case_insensitive(hi: u8, lo: u8)
    ensures
        hex_field_value(ascii_lower_byte(hi), ascii_lower_byte(lo)) == hex_field_value(hi, lo),
{
}

/// Lower-casing a string and then removing its leading `#`s is removing them
/// and then lower-casing.
proof fn lemma_strip_hashes_lower(s: Seq<u8>)
    ensures
        strip_hashes(ascii_lower(s)) == ascii_lower(strip_hashes(s)),
    decreases s.len(),
{
    if s.len() > 0 && s[0] == HASH_BYTE {
        assert(ascii_lower(s).drop_first() =~= ascii_lower(s.drop_first()));
        lemma_strip_hashes_lower(s.drop_first());
    }
}

/// A hex code reads the same whether its letters are upper or lower case.
pub proof fn lemma_hex_color_case_insensitive(s: Seq<u8>)
    requires
        hex_color_parsable(s),
    ensures
        hex_color_parsable(ascii_lower(s)),
        parse_hex_color(ascii_lower(s)) == parse_hex_color(s),
{
    lemma_strip_hashes_lower(s);
    let t = strip_hashes(s);
    lemma_field_case_insensitive(t[0], t[1]);
    lemma_field_case_insensitive(t[2], t[3]);
    lemma_field_case_insensitive(t[4], t[5]);
}

/// A code of `#` and six ASCII characters other than `#` can be parsed, and
/// reads as its three two-character fields.
proof fn lemma_hash_code(text: &str)
    requires
        text@.len() == 7,
        text@[0] == '#',
        forall|i: int| 1 <= i < 7 ==> '\0' <= #[trigger] text@[i] <= '\u{7f}' && text@[i] != '#',
    ensures
        hex_color_parsable(text.spec_bytes()),
        parse_hex_color(text.spec_bytes()) == (Srgb8 {
            r: hex_field_value(text@[1] as u8, text@[2] as u8),
            g: hex_field_value(text@[3] as u8, text@[4] as u8),
            b: hex_field_value(text@[5] as u8, text@[6] as u8),
        }),
{
    assert(is_ascii_chars(text@));
    is_ascii_chars_encode_utf8(text@);
    let bytes = text.spec_bytes();
    assert(bytes == Seq::new(7, |i: int| text@[i] as u8));
    assert(bytes[0] == HASH_BYTE);
    assert(bytes[1] != HASH_BYTE);
    assert(strip_hashes(bytes.drop_first()) == bytes.drop_first());
    assert(strip_hashes(bytes) == bytes.drop_first());
}

/// Reads a code of `#` and six ASCII characters other than `#`.
fn hash_code_color(text: &str) -> (color: Srgb8)
    requires
        text@.len() == 7,
        text@[0] == '#',
        forall|i: int| 1 <= i < 7 ==> '\0' <= #[trigger] text@[i] <= '\u{7f}' && text@[i] != '#',
    ensures
        color == (Srgb8 {
            r: hex_field_value(text@[1] as u8, text@[2] as u8),
            g: hex_field_value(text@[3] as u8, text@[4] as u8),
            b: hex_field_value(text@[5] as u8, text@[6] as u8),
        }),
{
    proof {
        lemma_hash_code(text);
    }
    hex_to_srgb8(text)
}

/// The colours of the pastel palette.
fn pastel_colors() -> (colors: PaletteSrgb8)
    ensures
        colors == (PaletteSrgb8 {
            background: Srgb8 { r: 0x0c, g: 0x09, b: 0x0d },
            forager: Srgb8 { r: 0xd0, g: 0xf4, b: 0xde },
            scout: Srgb8 { r: 0xa9, g: 0xde, b: 0xf9 },
            homing_pheromone: Srgb8 { r: 0xe4, g: 0xc1, b: 0xf9 },
            food_pheromone: Srgb8 { r: 0xfc, g: 0xf6, b: 0xbd },
            food: Srgb8 { r: 0xfc, g: 0xf6, b: 0xbd },
        }),
{
    //  #ff99c8, #fcf6bd, #d0f4de, #a9def9, #e4c1f9
    proof {
        reveal_strlit("#0c090d");
    }
    let background = hash_code_color("#0c090d");
    proof {
        reveal_strlit("#d0f4de");
    }
    let forager = hash_code_color("#d0f4de");
    proof {
        reveal_strlit("#a9def9");
    }
    let scout = hash_code_color("#a9def9");
    proof {
        reveal_strlit("#e4c1f9");
    }
    let homing_pheromone = hash_code_color("#e4c1f9");
    proof {
        reveal_strlit("#fcf6bd");
    }
    let food_pheromone = hash_code_color("#fcf6bd");
    let food = hash_code_color("#fcf6bd");
    PaletteSrgb8 { background, forager, scout, homing_pheromone, food_pheromone, food }
}

/// The colours of the light palette.
fn light_colors() -> (colors: PaletteSrgb8)
    ensures
        colors == (PaletteSrgb8 {
            background: Srgb8 { r: 0xe7, g: 0xec, b: 0xef },
            forager: Srgb8 { r: 0x0c, g: 0x09, b: 0x0d },
            scout: Srgb8 { r: 0x27, g: 0x4c, b: 0x77 },
            homing_pheromone: Srgb8 { r: 0x60, g: 0x96, b: 0xba },
            food_pheromone: Srgb8 { r: 0xa3, g: 0xce, b: 0xf1 },
            food: Srgb8 { r: 0xa3, g: 0xce, b: 0xf1 },
        }),
{
    // #e7ecef, #274c77, #6096ba, #a3cef1
    proof {
        reveal_strlit("#e7ecef");
    }
    let background = hash_code_color("#e7ecef");
    proof {
        reveal_strlit("#0c090d");
    }
    let forager = hash_code_color("#0c090d");
    proof {
        reveal_strlit("#274c77");
    }
    let scout = hash_code_color("#274c77");
    proof {
        reveal_strlit("#6096ba");
    }
    let homing_pheromone = hash_code_color("#6096ba");
    proof {
        reveal_strlit("#a3cef1");
    }
    let food_pheromone = hash_code_color("#a3cef1");
    let food = hash_code_color("#a3cef1");
    PaletteSrgb8 { background, forager, scout, homing_pheromone, food_pheromone, food }
}

impl Palette {
    /// The sRGB colours of the palette, read from its hex codes. The debug
    /// palette is given directly as linear colours and has none.
    pub fn srgb8_colors(self) -> (colors: Option<PaletteSrgb8>)
        ensures
            colors == match self {
                Palette::Pastel => Some(
                    PaletteSrgb8 {
                        background: Srgb8 { r: 0x0c, g: 0x09, b: 0x0d },
                        forager: Srgb8 { r: 0xd0, g: 0xf4, b: 0xde },
                        scout: Srgb8 { r: 0xa9, g: 0xde, b: 0xf9 },
                        homing_pheromone: Srgb8 { r: 0xe4, g: 0xc1, b: 0xf9 },
                        food_pheromone: Srgb8 { r: 0xfc, g: 0xf6, b: 0xbd },
                        food: Srgb8 { r: 0xfc, g: 0xf6, b: 0xbd },
                    },
                ),
                Palette::Light => Some(
                    PaletteSrgb8 {
                        background: Srgb8 { r: 0xe7, g: 0xec, b: 0xef },
                        forager: Srgb8 { r: 0x0c, g: 0x09, b: 0x0d },
                        scout: Srgb8 { r: 0x27, g: 0x4c, b: 0x77 },
                        homing_pheromone: Srgb8 { r: 0x60, g: 0x96, b: 0xba },
                        food_pheromone: Srgb8 { r: 0xa3, g: 0xce, b: 0xf1 },
                        food: Srgb8 { r: 0xa3, g: 0xce, b: 0xf1 },
                    },
                ),
                Palette::Debug => None,
            },
    {
        match self {
            Palette::Pastel => Some(pastel_colors()),
            Palette::Light => Some(light_colors()),
            Palette::Debug => None,
        }
    }
}

} // verus!
