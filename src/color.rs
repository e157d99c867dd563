//! Colors and the parsing of CSS hex color strings.
use vstd::prelude::*;
use vstd::utf8::encode_utf8;

verus! {

/// The byte `#`.
pub const HASH: u8 = 0x23;

/// The byte `+`.
pub const PLUS: u8 = 0x2b;

/// An unpremultiplied 8-bit-per-channel color.
#[derive(Clone, Copy, Debug, PartialEq, Eq, Structural)]
pub struct Color {
    pub a: u8,
    pub r: u8,
    pub g: u8,
    pub b: u8,
}

/// Opaque black.
pub open spec fn black() -> Color {
    Color { a: 255, r: 0, g: 0, b: 0 }
}

/// Opaque white.
pub open spec fn white() -> Color {
    Color { a: 255, r: 255, g: 255, b: 255 }
}

impl Color {
    /// A color from its alpha, red, green and blue channels.
    pub fn from_argb(a: u8, r: u8, g: u8, b: u8) -> (c: Color)
        ensures
            c == (Color { a, r, g, b }),
    {
        Color { a, r, g, b }
    }

    /// An opaque color from its red, green and blue channels.
    pub fn from_rgb(r: u8, g: u8, b: u8) -> (c: Color)
        ensures
            c == (Color { a: 255, r, g, b }),
    {
        Color { a: 255, r, g, b }
    }

    pub fn black() -> (c: Color)
        ensures
            c == black(),
    {
        Color::from_rgb(0, 0, 0)
    }

    pub fn white() -> (c: Color)
        ensures
            c == white(),
    {
        Color::from_rgb(255, 255, 255)
    }

    /// The color packed as `0xAARRGGBB`.
    pub fn to_argb_u32(&self) -> (v: u32)
        ensures
            v == self.a as u32 * 0x1000000 + self.r as u32 * 0x10000 + self.g as u32 * 0x100
                + self.b as u32,
    {
        self.a as u32 * 0x1000000 + self.r as u32 * 0x10000 + self.g as u32 * 0x100
            + self.b as u32
    }
}

/// The value of one hexadecimal digit, upper or lower case.
pub open spec fn hex_value(c: u8) -> Option<u8> {
    if 0x30 <= c <= 0x39 {
        Some((c - 0x30) as u8)
    } else if 0x61 <= c <= 0x66 {
        Some((c - 0x61 + 10) as u8)
    } else if 0x41 <= c <= 0x46 {
        Some((c - 0x41 + 10) as u8)
    } else {
        None
    }
}

/// The byte that two characters denote as a base-16 number: two digits, or
/// a `+` sign followed by one digit. No other form is a byte.
pub open spec fn hex_pair(hi: u8, lo: u8) -> Option<u8> {
    if hi == PLUS {
        hex_value(lo)
    } else {
        match (hex_value(hi), hex_value(lo)) {
            (Some(h), Some(l)) => Some((h * 16 + l) as u8),
            _ => None,
        }
    }
}

/// A channel given by two characters, or `default` where they are no byte.
pub open spec fn channel(hi: u8, lo: u8, default: u8) -> u8 {
    match hex_pair(hi, lo) {
        Some(v) => v,
        None => default,
    }
}

/// The bytes with every leading `#` removed.
pub open spec fn trim_hashes(b: Seq<u8>) -> Seq<u8>
    decreases b.len(),
{
    if b.len() > 0 && b[0] == HASH {
        trim_hashes(b.drop_first())
    } else {
        b
    }
}

/// The color that hex digits without a leading `#` denote: six digits give an
/// opaque color, eight give the alpha in the last two; any other length is
/// black. A channel that is no byte is 0, an alpha that is no byte is 255.
pub open spec fn color_of_hex(h: Seq<u8>) -> Color {
    if h.len() == 6 {
        Color {
            a: 255,
            r: channel(h[0], h[1], 0),
            g: channel(h[2], h[3], 0),
            b: channel(h[4], h[5], 0),
        }
    } else if h.len() == 8 {
        Color {
            a: channel(h[6], h[7], 255),
            r: channel(h[0], h[1], 0),
            g: channel(h[2], h[3], 0),
            b: channel(h[4], h[5], 0),
        }
    } else {
        black()
    }
}

/// The color that a CSS hex color string denotes. Its length is counted in
/// bytes of its UTF-8 encoding.
pub open spec fn color_of(s: Seq<char>) -> Color {
    color_of_hex(trim_hashes(encode_utf8(s)))
}

/// A leading `#` does not change the color that a string denotes:
/// `"#112233"` and `"112233"` are the same color.
pub proof fn lemma_leading_hash(s: Seq<char>)
    ensures
        color_of(seq!['#'] + s) == color_of(s),
{
    let t = seq!['#'] + s;
    assert(t[0] == '#');
    assert(t.drop_first() == s);
    assert(('#' as u32) == 0x23);
    assert((0x23u32 & 0x7F) == 0x23u32) by (bit_vector);
    assert(vstd::utf8::encode_scalar('#' as u32) == seq![HASH]);
    assert(encode_utf8(t) == seq![HASH] + encode_utf8(s));
    let b = seq![HASH] + encode_utf8(s);
    assert(b.drop_first() == encode_utf8(s));
}

/// Six hex digits give an opaque color, eight give the alpha in the last two,
/// and any other length gives black.
pub proof fn lemma_color_forms(s: Seq<char>)
    ensures
        ({
            let h = trim_hashes(encode_utf8(s));
            &&& h.len() == 6 ==> color_of(s).a == 255
            &&& h.len() == 8 ==> color_of(s).a == channel(h[6], h[7], 255)
            &&& h.len() != 6 && h.len() != 8 ==> color_of(s) == black()
        }),
{
}

fn hex_digit(c: u8) -> (r: Option<u8>)
    ensures
        r == hex_value(c),
{
    if 0x30 <= c && c <= 0x39 {
        Some(c - 0x30)
    } else if 0x61 <= c && c <= 0x66 {
        Some(c - 0x61 + 10)
    } else if 0x41 <= c && c <= 0x46 {
        Some(c - 0x41 + 10)
    } else {
        None
    }
}

fn parse_channel(hi: u8, lo: u8, default: u8) -> (r: u8)
    ensures
        r == channel(hi, lo, default),
{
    if hi == PLUS {
        match hex_digit(lo) {
            Some(v) => v,
            None => default,
        }
    } else {
        match (hex_digit(hi), hex_digit(lo)) {
            (Some(h), Some(l)) => h * 16 + l,
            _ => default,
        }
    }
}

proof fn lemma_trim_hashes_skip(b: Seq<u8>, i: int)
    requires
        0 <= i <= b.len(),
        forall|j: int| 0 <= j < i ==> b[j] == HASH,
    ensures
        trim_hashes(b) == trim_hashes(b.subrange(i, b.len() as int)),
    decreases i,
{
    if i > 0 {
        assert(b.drop_first() == b.subrange(1, b.len() as int));
        let t = b.drop_first();
        assert forall|j: int| 0 <= j < i - 1 implies t[j] == HASH by {
            assert(t[j] == b[j + 1]);
        }
        lemma_trim_hashes_skip(t, i - 1);
        assert(t.subrange(i - 1, t.len() as int) == b.subrange(i, b.len() as int));
    } else {
        assert(b.subrange(0, b.len() as int) == b);
    }
}

/// Parses a CSS color string, `#RRGGBB` or `#RRGGBBAA`, the `#` optional.
pub fn parse_color(color_str: &str) -> (c: Color)
    ensures
        c == color_of(color_str@),
{
    let bytes = color_str.as_bytes();
    let n = bytes.len();
    let mut i: usize = 0;
    while i < n && bytes[i] == HASH
        invariant
            bytes@ == encode_utf8(color_str@),
            n == bytes@.len(),
            i <= n,
            forall|j: int| 0 <= j < i ==> bytes@[j] == HASH,
        decreases n - i,
    {
        i = i + 1;
    }
    proof {
        lemma_trim_hashes_skip(bytes@, i as int);
        assert(i < n ==> bytes@.subrange(i as int, n as int)[0] != HASH);
    }
    let ghost h = bytes@.subrange(i as int, n as int);
    assert(trim_hashes(encode_utf8(color_str@)) == h);
    let len = n - i;
    if len == 6 {
        let r = parse_channel(bytes[i], bytes[i + 1], 0);
        let g = parse_channel(bytes[i + 2], bytes[i + 3], 0);
        let b = parse_channel(bytes[i + 4], bytes[i + 5], 0);
        Color::from_rgb(r, g, b)
    } else if len == 8 {
        let r = parse_channel(bytes[i], bytes[i + 1], 0);
        let g = parse_channel(bytes[i + 2], bytes[i + 3], 0);
        let b = parse_channel(bytes[i + 4], bytes[i + 5], 0);
        let a = parse_channel(bytes[i + 6], bytes[i + 7], 255);
        Color::from_argb(a, r, g, b)
    } else {
        Color::black()
    }
}

} // verus!
