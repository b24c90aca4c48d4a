//! Bitmap font for framebuffer text: 8x16 glyphs addressed by byte.
//!
//! Glyph artwork is out of scope for the kernel core; printable characters
//! render as a block, everything else as a placeholder face, and space as
//! blank.  What matters to the layer above is the fixed cell geometry.

use vstd::prelude::*;

verus! {

/// Glyph cell width in pixels
pub const FONT_WIDTH: u32 = 8;

/// Glyph cell height in pixels
pub const FONT_HEIGHT: u32 = 16;

/// The glyph rows for a byte: space is blank, printable ASCII is a block,
/// anything else the placeholder face.
pub open spec fn spec_glyph(c: u8) -> Seq<u8> {
    if c == 0x20 {
        seq![0u8, 0, 0, 0, 0, 0, 0, 0, 0, 0, 0, 0, 0, 0, 0, 0]
    } else if 0x20 <= c < 0x7F {
        seq![0u8, 0, 0, 0x3C, 0x3C, 0x3C, 0x3C, 0x3C, 0x3C, 0x3C, 0x3C, 0, 0, 0, 0, 0]
    } else {
        seq![0u8, 0, 0x7E, 0x81, 0xA5, 0x81, 0x81, 0xBD, 0x99, 0x81, 0x81, 0x7E, 0, 0, 0, 0]
    }
}

/// The 16 rows of the glyph for byte `c`, top to bottom, one bit per
/// pixel, most significant bit leftmost.
pub fn get_char(c: u8) -> (r: Vec<u8>)
    ensures
        r@ == spec_glyph(c),
{
    let mut rows: Vec<u8> = Vec::new();
    if c == 0x20 {
        let mut i: usize = 0;
        while i < 16
            invariant
                i <= 16,
                rows@.len() == i,
                forall|j: int| 0 <= j < i ==> rows@[j] == 0u8,
            decreases 16 - i,
        {
            rows.push(0);
            i += 1;
        }
        proof {
            assert(rows@ =~= spec_glyph(c));
        }
    } else if c >= 0x20 && c < 0x7F {
        rows.push(0);
        rows.push(0);
        rows.push(0);
        rows.push(0x3C);
        rows.push(0x3C);
        rows.push(0x3C);
        rows.push(0x3C);
        rows.push(0x3C);
        rows.push(0x3C);
        rows.push(0x3C);
        rows.push(0x3C);
        rows.push(0);
        rows.push(0);
        rows.push(0);
        rows.push(0);
        rows.push(0);
        proof {
            assert(rows@ =~= spec_glyph(c));
        }
    } else {
        rows.push(0);
        rows.push(0);
        rows.push(0x7E);
        rows.push(0x81);
        rows.push(0xA5);
        rows.push(0x81);
        rows.push(0x81);
        rows.push(0xBD);
        rows.push(0x99);
        rows.push(0x81);
        rows.push(0x81);
        rows.push(0x7E);
        rows.push(0);
        rows.push(0);
        rows.push(0);
        rows.push(0);
        proof {
            assert(rows@ =~= spec_glyph(c));
        }
    }
    rows
}

} // verus!
