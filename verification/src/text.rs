//! The text overlay: a line of characters, each drawn as a cell of a glyph
//! atlas, and the numbers that place the line on the screen.
//!
//! A colour channel is carried as the bit pattern of an IEEE-754 binary32
//! number, as a coordinate of the path is.

use vstd::prelude::*;
use vstd::utf8::encode_utf8;

verus! {

/// The bit pattern of `1.0`.
pub const ONE: u32 = 0x3f80_0000;

/// The row of the atlas that holds the digits.
pub const DIGIT_ROW: u32 = 0;

/// The row of the atlas that holds the capital letters.
pub const UPPER_ROW: u32 = 1;

/// The row of the atlas that holds the small letters.
pub const LOWER_ROW: u32 = 2;

/// One character of the overlay, as the text shader reads it.
#[derive(Clone, Copy, Debug, PartialEq, Eq)]
pub struct Glyph {
    /// Column and row of the character's cell in the atlas, then two zeros.
    pub atlas_offset: [u32; 4],
    /// Red, green, blue and alpha.
    pub color: [u32; 4],
}

/// The column and the row of the atlas cell that draws a character. A digit
/// stands in the first row at its value, a letter in the row of its case at
/// its place in the alphabet; any other character is drawn with the first
/// cell.
pub open spec fn atlas_cell(c: char) -> (u32, u32) {
    if '0' <= c <= '9' {
        ((c as u32 - '0' as u32) as u32, DIGIT_ROW)
    } else if 'A' <= c <= 'Z' {
        ((c as u32 - 'A' as u32) as u32, UPPER_ROW)
    } else if 'a' <= c <= 'z' {
        ((c as u32 - 'a' as u32) as u32, LOWER_ROW)
    } else {
        (0, 0)
    }
}

/// The red channel of a character: a space is drawn with every channel at
/// zero, any other character in red.
pub open spec fn red_of(c: char) -> u32 {
    if c == ' ' {
        0
    } else {
        ONE
    }
}

impl Glyph {
    /// The glyph that draws a character, as a mathematical value.
    pub open spec fn of(c: char) -> Glyph {
        Glyph {
            atlas_offset: [atlas_cell(c).0, atlas_cell(c).1, 0, 0],
            color: [red_of(c), 0, 0, 0],
        }
    }

    /// The glyph that draws a character.
    pub fn from(c: char) -> (glyph: Glyph)
        ensures
            glyph == Glyph::of(c),
    {
        let code: u32 = c as u32;
        let (column, row): (u32, u32) = if '0' as u32 <= code && code <= '9' as u32 {
            (code - '0' as u32, DIGIT_ROW)
        } else if 'A' as u32 <= code && code <= 'Z' as u32 {
            (code - 'A' as u32, UPPER_ROW)
        } else if 'a' as u32 <= code && code <= 'z' as u32 {
            (code - 'a' as u32, LOWER_ROW)
        } else {
            (0, 0)
        };
        let red: u32 = if c == ' ' {
            0
        } else {
            ONE
        };
        Glyph { atlas_offset: [column, row, 0, 0], color: [red, 0, 0, 0] }
    }
}

/// The glyphs that draw a text, one for each character.
pub open spec fn glyphs_of(text: Seq<char>) -> Seq<Glyph> {
    text.map_values(|c: char| Glyph::of(c))
}

/// The length of a text in bytes, as UTF-8 encodes it.
pub open spec fn byte_len(text: Seq<char>) -> nat {
    encode_utf8(text).len()
}

/// A text together with the glyphs that draw it.
pub struct Buffer {
    chars: String,
    glyphs: Vec<Glyph>,
}

impl View for Buffer {
    type V = Seq<char>;

    closed spec fn view(&self) -> Seq<char> {
        self.chars@
    }
}

impl Buffer {
    #[verifier::type_invariant]
    spec fn glyphs_follow_text(self) -> bool {
        self.glyphs@ == glyphs_of(self.chars@)
    }

    /// The buffer of a text.
    pub fn from(text: &str) -> (buffer: Buffer)
        ensures
            buffer@ == text@,
    {
        let mut glyphs: Vec<Glyph> = Vec::new();
        for c in it: text.chars()
            invariant
                it.seq() == text@,
                glyphs@ == glyphs_of(text@.take(it.index() as int)),
        {
            glyphs.push(Glyph::from(c));
        }
        proof {
            assert(text@.take(text@.len() as int) == text@);
        }
        Buffer { chars: text.to_owned(), glyphs }
    }

    /// The glyphs of the text, one for each character and in its order.
    pub fn glyphs(&self) -> (glyphs: &Vec<Glyph>)
        ensures
            glyphs@ == glyphs_of(self@),
    {
        proof {
            use_type_invariant(self);
        }
        &self.glyphs
    }

    /// The length of the text in bytes.
    pub fn len(&self) -> (n: usize)
        ensures
            n == byte_len(self@),
    {
        self.chars.as_str().as_bytes().len()
    }
}

/// The numbers that place a line of text on the screen, as the text shader
/// reads them.
#[derive(Clone, Copy, Debug)]
pub struct Metadata {
    /// Width and height of one character, in pixels.
    pub pixel_size: [u32; 2],
    /// Where the line starts, in pixels.
    pub pixel_position: [u32; 2],
    length: u32,
    /// The distance from one character to the next.
    pub kerning: u32,
}

/// A length in bytes as the shader's 32-bit field holds it: its low 32 bits.
pub open spec fn length_field(len: nat) -> u32 {
    (len % 0x1_0000_0000) as u32
}

/// [`Metadata`] as a mathematical value.
pub ghost struct MetadataView {
    pub pixel_size: Seq<u32>,
    pub pixel_position: Seq<u32>,
    pub length: u32,
    pub kerning: u32,
}

impl View for Metadata {
    type V = MetadataView;

    closed spec fn view(&self) -> MetadataView {
        MetadataView {
            pixel_size: self.pixel_size@,
            pixel_position: self.pixel_position@,
            length: self.length,
            kerning: self.kerning,
        }
    }
}

/// The numbers of a text of the given length that has not been placed yet:
/// everything but the length is zero.
pub open spec fn unplaced(length: u32) -> MetadataView {
    MetadataView { pixel_size: seq![0u32, 0u32], pixel_position: seq![0u32, 0u32], length, kerning: 0 }
}

impl Metadata {
    /// The numbers of a line with no text: all zero.
    pub fn empty() -> (metadata: Self)
        ensures
            metadata@ == unplaced(0),
    {
        Metadata { pixel_size: [0, 0], pixel_position: [0, 0], length: 0, kerning: 0 }
    }

    /// The numbers of a buffer's text: its length in bytes, and zero for
    /// everything that the caller has yet to set.
    pub fn from(buffer: &Buffer) -> (metadata: Self)
        ensures
            metadata@ == unplaced(length_field(byte_len(buffer@))),
    {
        let len: u64 = buffer.len() as u64;
        let low: u64 = len & 0xffff_ffff;
        proof {
            assert(len & 0xffff_ffff == len % 0x1_0000_0000) by (bit_vector);
        }
        Metadata { pixel_size: [0, 0], pixel_position: [0, 0], length: low as u32, kerning: 0 }
    }

    /// The length of the text that these numbers belong to.
    pub fn length(&self) -> (n: u32)
        ensures
            n == self@.length,
    {
        self.length
    }
}

/// A line of the overlay: its text and the numbers that place it.
pub struct TextLine {
    buffer: Buffer,
    metadata: Metadata,
}

impl TextLine {
    pub closed spec fn spec_buffer(self) -> Buffer {
        self.buffer
    }

    pub closed spec fn spec_metadata(self) -> Metadata {
        self.metadata
    }

    /// A line with no text, placed nowhere.
    pub fn empty() -> (line: Self)
        ensures
            line.spec_buffer()@ == Seq::<char>::empty(),
            line.spec_metadata()@ == unplaced(0),
    {
        proof {
            reveal_strlit("");
        }
        TextLine { buffer: Buffer::from(""), metadata: Metadata::empty() }
    }

    /// The text of the line.
    pub fn buffer(&self) -> (buffer: &Buffer)
        ensures
            *buffer == self.spec_buffer(),
    {
        &self.buffer
    }

    /// The numbers that place the line.
    pub fn metadata(&self) -> (metadata: Metadata)
        ensures
            metadata == self.spec_metadata(),
    {
        self.metadata
    }
}

/// One byte of the atlas texture: a cell pixel is either off or fully on.
pub open spec fn mask_byte(byte: u8) -> u8 {
    if byte == 0 {
        0
    } else {
        255
    }
}

/// Turns the bytes of a glyph atlas into a mask: every byte that is not zero
/// becomes 255.
pub fn atlas_mask(bytes: &[u8]) -> (mask: Vec<u8>)
    ensures
        mask@ == bytes@.map_values(|byte: u8| mask_byte(byte)),
{
    let mut mask: Vec<u8> = Vec::with_capacity(bytes.len());
    let mut i: usize = 0;
    while i < bytes.len()
        invariant
            i <= bytes.len(),
            mask@ == bytes@.take(i as int).map_values(|byte: u8| mask_byte(byte)),
        decreases bytes.len() - i,
    {
        let byte: u8 = if bytes[i] == 0 {
            0
        } else {
            255
        };
        mask.push(byte);
        proof {
            assert(mask@ == bytes@.take(i + 1).map_values(|byte: u8| mask_byte(byte)));
        }
        i += 1;
    }
    proof {
        assert(bytes@.take(i as int) == bytes@);
    }
    mask
}

} // verus!
