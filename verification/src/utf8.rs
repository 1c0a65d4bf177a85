//! Code points on the wire: what is sent for the code point of a cell.

use vstd::prelude::*;
use vstd::utf8::{encode_scalar, is_scalar};

verus! {

/// The code point shown in place of one that is not a Unicode scalar value.
pub const REPLACEMENT: u32 = 0xFFFD;

/// Whether a code point is a C0 or C1 control character or DEL. A terminal
/// would act on these rather than show them.
pub open spec fn is_control(ch: u32) -> bool {
    ch < 0x20 || (0x7F <= ch && ch <= 0x9F)
}

/// The bytes sent for a code point: a space for a control character, the
/// UTF-8 encoding for any other Unicode scalar value, and the encoding of
/// U+FFFD for a value that is none (a surrogate or one above U+10FFFF).
pub open spec fn glyph(ch: u32) -> Seq<u8> {
    if is_control(ch) {
        seq![0x20u8]
    } else if is_scalar(ch) {
        encode_scalar(ch)
    } else {
        encode_scalar(REPLACEMENT)
    }
}

/// A glyph is one to four bytes long, and none of its bytes is a control
/// byte: a glyph cannot start an escape sequence.
pub proof fn glyph_is_plain(ch: u32)
    ensures
        1 <= glyph(ch).len() <= 4,
        forall|i: int| 0 <= i < glyph(ch).len() ==> #[trigger] glyph(ch)[i] >= 0x20 && glyph(ch)[i] != 0x7F,
{
    let c: u32 = if is_control(ch) {
        0x20
    } else if is_scalar(ch) {
        ch
    } else {
        REPLACEMENT
    };
    assert(glyph(ch) =~= encode_scalar(c)) by {
        assert((0x20u32 & 0x7F) as u8 == 0x20u8) by (bit_vector);
    }
    assert(c < 0x80 ==> (c & 0x7F) as u8 == c) by (bit_vector);
    assert((0xC0u8 | ((c >> 6) & 0x1F) as u8) >= 0x80) by (bit_vector);
    assert((0xE0u8 | ((c >> 12) & 0x0F) as u8) >= 0x80) by (bit_vector);
    assert((0xF0u8 | ((c >> 18) & 0x7) as u8) >= 0x80) by (bit_vector);
    assert((0x80u8 | (c & 0x3F) as u8) >= 0x80) by (bit_vector);
    assert((0x80u8 | ((c >> 6) & 0x3F) as u8) >= 0x80) by (bit_vector);
    assert((0x80u8 | ((c >> 12) & 0x3F) as u8) >= 0x80) by (bit_vector);
}

/// Appends the UTF-8 encoding of a Unicode scalar value.
pub fn push_scalar(out: &mut Vec<u8>, c: u32)
    requires
        is_scalar(c),
    ensures
        final(out)@ == old(out)@ + encode_scalar(c),
{
    if c < 0x80 {
        out.push((c & 0x7F) as u8);
        assert(out@ =~= old(out)@ + encode_scalar(c));
    } else if c < 0x800 {
        out.push(0xC0 | ((c >> 6) & 0x1F) as u8);
        out.push(0x80 | (c & 0x3F) as u8);
        assert(out@ =~= old(out)@ + encode_scalar(c));
    } else if c < 0x10000 {
        out.push(0xE0 | ((c >> 12) & 0x0F) as u8);
        out.push(0x80 | ((c >> 6) & 0x3F) as u8);
        out.push(0x80 | (c & 0x3F) as u8);
        assert(out@ =~= old(out)@ + encode_scalar(c));
    } else {
        out.push(0xF0 | ((c >> 18) & 0x7) as u8);
        out.push(0x80 | ((c >> 12) & 0x3F) as u8);
        out.push(0x80 | ((c >> 6) & 0x3F) as u8);
        out.push(0x80 | (c & 0x3F) as u8);
        assert(out@ =~= old(out)@ + encode_scalar(c));
    }
}

/// Appends the glyph of a code point.
pub fn push_glyph(out: &mut Vec<u8>, ch: u32)
    ensures
        final(out)@ == old(out)@ + glyph(ch),
{
    if ch < 0x20 || (0x7F <= ch && ch <= 0x9F) {
        out.push(0x20);
        assert(out@ =~= old(out)@ + glyph(ch));
    } else if ch <= 0x10FFFF && !(0xD800 <= ch && ch <= 0xDFFF) {
        push_scalar(out, ch);
    } else {
        push_scalar(out, REPLACEMENT);
    }
}

} // verus!
