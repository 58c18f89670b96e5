//! Colours with eight bits to a channel, and their hexadecimal notation.

use vstd::prelude::*;
use vstd::string::StringSliceAdditionalSpecFns;

verus! {

/// Why a text is no hexadecimal colour.
#[derive(Clone, Copy, Debug, PartialEq, Eq, Structural)]
pub enum HexColorError {
    /// The text has neither 3, 4, 6 nor 8 digits.
    Length,
    /// This character is no hexadecimal digit.
    Char(char),
}

impl HexColorError {
    /// What went wrong, in words.
    pub fn message(&self) -> (text: String)
        ensures
            text@ == match self {
                HexColorError::Length => "Unexpected length of hex string"@,
                HexColorError::Char(_) => "Invalid hex char"@,
            },
    {
        match self {
            HexColorError::Length => "Unexpected length of hex string".to_owned(),
            HexColorError::Char(_) => "Invalid hex char".to_owned(),
        }
    }
}

/// A colour in the sRGB colour space, with its opacity.
#[derive(Clone, Copy, Debug, PartialEq, Eq, Structural, Hash)]
pub struct Color {
    /// Red channel.
    pub red: u8,
    /// Green channel.
    pub green: u8,
    /// Blue channel.
    pub blue: u8,
    /// Opacity.
    pub alpha: u8,
}

/// The value of one hexadecimal digit (`0-9`, `A-F`, `a-f`), or the byte
/// itself if it is none.
pub open spec fn hex_digit(b: u8) -> Result<u8, u8> {
    if 0x30 <= b <= 0x39 {
        Ok((b - 0x30) as u8)
    } else if 0x41 <= b <= 0x46 {
        Ok((b - 0x41 + 10) as u8)
    } else if 0x61 <= b <= 0x66 {
        Ok((b - 0x61 + 10) as u8)
    } else {
        Err(b)
    }
}

/// The first of `digits` that is no hexadecimal digit.
pub open spec fn first_bad_digit(digits: Seq<u8>) -> Option<u8>
    decreases digits.len(),
{
    if digits.len() == 0 {
        None
    } else if hex_digit(digits[0]) is Err {
        Some(digits[0])
    } else {
        first_bad_digit(digits.drop_first())
    }
}

/// The byte that two hexadecimal digits spell.
pub open spec fn hex_pair(high: u8, low: u8) -> u8 {
    (hex_digit(high).unwrap() * 16 + hex_digit(low).unwrap()) as u8
}

/// `bytes` without a leading `#`.
pub open spec fn without_hash(bytes: Seq<u8>) -> Seq<u8> {
    if bytes.len() > 0 && bytes[0] == 0x23 {
        bytes.skip(1)
    } else {
        bytes
    }
}

/// The colour that `bytes` spell: after an optional `#`, the digits `RGB`,
/// `RGBA`, `RRGGBB` or `RRGGBBAA`. A short digit counts twice, and a colour
/// without `A` is opaque. Any other number of digits is refused; with the
/// right number, the first byte that is no digit is.
pub open spec fn parsed_hex(bytes: Seq<u8>) -> Result<Color, HexColorError> {
    let d = without_hash(bytes);
    if d.len() != 3 && d.len() != 4 && d.len() != 6 && d.len() != 8 {
        Err(HexColorError::Length)
    } else if first_bad_digit(d) is Some {
        Err(HexColorError::Char(first_bad_digit(d).unwrap() as char))
    } else if d.len() == 3 {
        Ok(
            Color {
                red: hex_pair(d[0], d[0]),
                green: hex_pair(d[1], d[1]),
                blue: hex_pair(d[2], d[2]),
                alpha: 255,
            },
        )
    } else if d.len() == 4 {
        Ok(
            Color {
                red: hex_pair(d[0], d[0]),
                green: hex_pair(d[1], d[1]),
                blue: hex_pair(d[2], d[2]),
                alpha: hex_pair(d[3], d[3]),
            },
        )
    } else if d.len() == 6 {
        Ok(
            Color {
                red: hex_pair(d[0], d[1]),
                green: hex_pair(d[2], d[3]),
                blue: hex_pair(d[4], d[5]),
                alpha: 255,
            },
        )
    } else {
        Ok(
            Color {
                red: hex_pair(d[0], d[1]),
                green: hex_pair(d[2], d[3]),
                blue: hex_pair(d[4], d[5]),
                alpha: hex_pair(d[6], d[7]),
            },
        )
    }
}

/// The channels in one number: red in the lowest byte, then green, blue
/// and opacity.
pub open spec fn packed(c: Color) -> u32 {
    (c.red as int + c.green as int * 0x100 + c.blue as int * 0x1_0000 + c.alpha as int
        * 0x100_0000) as u32
}

/// Parses a single hexadecimal digit (`a-f`, `A-F`, `0-9`).
pub fn hex_value(b: u8) -> (r: Result<u8, u8>)
    ensures
        r == hex_digit(b),
        r matches Ok(v) ==> v < 16,
{
    if 0x30 <= b && b <= 0x39 {
        Ok(b - 0x30)
    } else if 0x41 <= b && b <= 0x46 {
        Ok(b - 0x41 + 10)
    } else if 0x61 <= b && b <= 0x66 {
        Ok(b - 0x61 + 10)
    } else {
        Err(b)
    }
}

/// Turns pairs of hexadecimal digits into bytes: the first half of the
/// result holds the byte of each pair, in order. Fails on the first byte
/// that is no digit.
pub fn decode_hex<const N: usize>(bytes: [u8; N]) -> (r: Result<[u8; N], HexColorError>)
    ensures
        match r {
            Ok(out) => {
                &&& first_bad_digit(bytes@).is_none()
                &&& forall|i: int|
                    0 <= i < N / 2 ==> #[trigger] out@[i] == hex_pair(bytes@[2 * i], bytes@[2 * i + 1])
            },
            Err(e) => first_bad_digit(bytes@) is Some && e == HexColorError::Char(
                first_bad_digit(bytes@).unwrap() as char,
            ),
        },
{
    let mut out = bytes;
    let mut i: usize = 0;
    assert(bytes@.skip(0) =~= bytes@);
    while i < N
        invariant
            i <= N,
            out@.len() == N,
            first_bad_digit(bytes@) == first_bad_digit(bytes@.skip(i as int)),
            forall|j: int| 0 <= j < i ==> hex_digit(bytes@[j]) == Ok::<u8, u8>(#[trigger] out@[j]),
            forall|j: int| 0 <= j < i ==> out@[j] < 16,
        decreases N - i,
    {
        assert(bytes@.skip(i as int)[0] == bytes@[i as int]);
        assert(bytes@.skip(i as int).drop_first() =~= bytes@.skip(i + 1));
        match hex_value(bytes[i]) {
            Ok(v) => {
                out[i] = v;
            },
            Err(b) => {
                return Err(HexColorError::Char(b as char));
            },
        }
        i += 1;
    }
    let ghost digits = out;
    let mut k: usize = 0;
    while k < N / 2
        invariant
            k <= N / 2,
            out@.len() == N,
            digits@.len() == N,
            forall|j: int| 0 <= j < N ==> hex_digit(bytes@[j]) == Ok::<u8, u8>(#[trigger] digits@[j]),
            forall|j: int| 0 <= j < N ==> digits@[j] < 16,
            forall|j: int| k <= j < N ==> out@[j] == digits@[j],
            forall|j: int| 0 <= j < k ==> #[trigger] out@[j] == hex_pair(bytes@[2 * j], bytes@[2 * j + 1]),
        decreases N / 2 - k,
    {
        let high = out[2 * k];
        let low = out[2 * k + 1];
        assert(hex_digit(bytes@[2 * k]) == Ok::<u8, u8>(digits@[2 * k]));
        assert(hex_digit(bytes@[2 * k + 1]) == Ok::<u8, u8>(digits@[2 * k + 1]));
        out[k] = high * 16 + low;
        k += 1;
    }
    assert(bytes@.skip(N as int).len() == 0);
    Ok(out)
}

impl Color {
    /// White, opaque.
    pub fn white() -> (c: Color)
        ensures
            c == (Color { red: 255, green: 255, blue: 255, alpha: 255 }),
    {
        Color { red: 255, green: 255, blue: 255, alpha: 255 }
    }

    /// Black, opaque.
    pub fn black() -> (c: Color)
        ensures
            c == (Color { red: 0, green: 0, blue: 0, alpha: 255 }),
    {
        Color { red: 0, green: 0, blue: 0, alpha: 255 }
    }

    /// The colour that a hexadecimal notation spells: `RGB`, `RGBA`,
    /// `RRGGBB` or `RRGGBBAA`, with or without a leading `#`.
    pub fn hex(hex: &str) -> (r: Result<Color, HexColorError>)
        ensures
            r == parsed_hex(hex.spec_bytes()),
    {
        Color::from_hex_bytes(hex.as_bytes())
    }

    /// The colour that the bytes of a hexadecimal notation spell.
    pub fn from_hex_bytes(bytes: &[u8]) -> (r: Result<Color, HexColorError>)
        ensures
            r == parsed_hex(bytes@),
    {
        let start: usize = if bytes.len() > 0 && bytes[0] == 0x23 {
            1
        } else {
            0
        };
        let ghost d = without_hash(bytes@);
        assert(d =~= bytes@.skip(start as int));
        let n = bytes.len() - start;
        if n == 3 {
            let (r, g, b) = (bytes[start], bytes[start + 1], bytes[start + 2]);
            let pairs = [r, r, g, g, b, b];
            proof {
                lemma_doubled_digits(d, pairs@);
            }
            match decode_hex(pairs) {
                Ok(out) => Ok(Color::rgb_u8(out[0], out[1], out[2])),
                Err(e) => Err(e),
            }
        } else if n == 4 {
            let (r, g, b, a) = (bytes[start], bytes[start + 1], bytes[start + 2], bytes[start + 3]);
            let pairs = [r, r, g, g, b, b, a, a];
            proof {
                lemma_doubled_digits(d, pairs@);
            }
            match decode_hex(pairs) {
                Ok(out) => Ok(Color::rgba_u8(out[0], out[1], out[2], out[3])),
                Err(e) => Err(e),
            }
        } else if n == 6 {
            let pairs = [
                bytes[start],
                bytes[start + 1],
                bytes[start + 2],
                bytes[start + 3],
                bytes[start + 4],
                bytes[start + 5],
            ];
            assert(pairs@ =~= d);
            match decode_hex(pairs) {
                Ok(out) => Ok(Color::rgb_u8(out[0], out[1], out[2])),
                Err(e) => Err(e),
            }
        } else if n == 8 {
            let pairs = [
                bytes[start],
                bytes[start + 1],
                bytes[start + 2],
                bytes[start + 3],
                bytes[start + 4],
                bytes[start + 5],
                bytes[start + 6],
                bytes[start + 7],
            ];
            assert(pairs@ =~= d);
            match decode_hex(pairs) {
                Ok(out) => Ok(Color::rgba_u8(out[0], out[1], out[2], out[3])),
                Err(e) => Err(e),
            }
        } else {
            Err(HexColorError::Length)
        }
    }

    /// An opaque colour from its three channels.
    pub fn rgb_u8(r: u8, g: u8, b: u8) -> (c: Color)
        ensures
            c == (Color { red: r, green: g, blue: b, alpha: 255 }),
    {
        Color::rgba_u8(r, g, b, u8::MAX)
    }

    /// A colour from its three channels and its opacity.
    pub fn rgba_u8(r: u8, g: u8, b: u8, a: u8) -> (c: Color)
        ensures
            c == (Color { red: r, green: g, blue: b, alpha: a }),
    {
        Color { red: r, green: g, blue: b, alpha: a }
    }

    /// The channels in one number, as a little-endian reader of four bytes
    /// in the order red, green, blue, opacity sees them: opacity is the
    /// highest byte and red the lowest.
    pub fn as_rgba_u32(self) -> (n: u32)
        ensures
            n == packed(self),
    {
        (self.red as u32) + (self.green as u32) * 0x100 + (self.blue as u32) * 0x1_0000 + (
        self.alpha as u32) * 0x100_0000
    }
}

/// The first bad digit of a notation is the first bad digit of the same
/// notation with each digit doubled.
proof fn lemma_doubled_digits(d: Seq<u8>, pairs: Seq<u8>)
    requires
        pairs.len() == 2 * d.len(),
        forall|i: int| 0 <= i < d.len() ==> pairs[2 * i] == d[i] && pairs[2 * i + 1] == d[i],
    ensures
        first_bad_digit(pairs) == first_bad_digit(d),
    decreases d.len(),
{
    if d.len() > 0 {
        assert(pairs[0] == d[0] && pairs[1] == d[0]);
        let rest = pairs.drop_first().drop_first();
        assert forall|i: int| 0 <= i < d.drop_first().len() implies rest[2 * i] == d.drop_first()[i]
            && rest[2 * i + 1] == d.drop_first()[i] by {
            assert(pairs[2 * (i + 1)] == d[i + 1] && pairs[2 * (i + 1) + 1] == d[i + 1]);
        }
        lemma_doubled_digits(d.drop_first(), rest);
        let tail = pairs.drop_first();
        assert(tail.len() > 0 && tail[0] == d[0]);
        if hex_digit(d[0]) is Ok {
            assert(first_bad_digit(pairs) == first_bad_digit(tail));
            assert(first_bad_digit(tail) == first_bad_digit(rest));
        }
    }
}

} // verus!
