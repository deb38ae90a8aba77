//! GIF block-level byte encoding.
//!
//! Every structural block (header, descriptors, extensions, trailer) is
//! emitted by verified code whose contract gives the exact bytes; only
//! the LZW compression inside an Image Data block is delegated to an
//! outside encoder.

use vstd::prelude::*;

verus! {

/// The six header bytes `GIF89a`.
pub open spec fn spec_header() -> Seq<u8> {
    seq![0x47u8, 0x49u8, 0x46u8, 0x38u8, 0x39u8, 0x61u8]
}

/// A global color table length is valid when it is a power of two
/// between 2 and 256.
pub open spec fn valid_table_len(n: int) -> bool {
    n == 2 || n == 4 || n == 8 || n == 16 || n == 32 || n == 64 || n == 128 || n == 256
}

/// The size field stored in the screen descriptor: the table holds
/// `2 << spec_len_bits(n)` colors.
pub open spec fn spec_len_bits(n: int) -> u8 {
    if n == 2 {
        0
    } else if n == 4 {
        1
    } else if n == 8 {
        2
    } else if n == 16 {
        3
    } else if n == 32 {
        4
    } else if n == 64 {
        5
    } else if n == 128 {
        6
    } else {
        7
    }
}

fn len_bits(n: usize) -> (r: u8)
    requires
        valid_table_len(n as int),
    ensures
        r == spec_len_bits(n as int),
        r <= 7,
{
    if n == 2 {
        0
    } else if n == 4 {
        1
    } else if n == 8 {
        2
    } else if n == 16 {
        3
    } else if n == 32 {
        4
    } else if n == 64 {
        5
    } else if n == 128 {
        6
    } else {
        7
    }
}

/// The packed flags byte of the logical screen descriptor: global table
/// present, color resolution mirroring the table size, not sorted.
pub open spec fn spec_screen_flags(table_len: int) -> u8 {
    (0x80u8 | ((spec_len_bits(table_len) << 4) as u8)) | spec_len_bits(table_len)
}

/// The seven bytes of the logical screen descriptor.
pub open spec fn spec_screen_desc(w: u16, h: u16, table_len: int) -> Seq<u8> {
    seq![
        (w & 0xff) as u8,
        (w >> 8) as u8,
        (h & 0xff) as u8,
        (h >> 8) as u8,
        spec_screen_flags(table_len),
        0u8,
        0u8,
    ]
}

/// The application extension holding a NETSCAPE loop block with loop
/// count zero (loop forever).
pub open spec fn spec_loop_forever() -> Seq<u8> {
    seq![
        0x21u8, 0xFFu8, 0x0Bu8,
        0x4Eu8, 0x45u8, 0x54u8, 0x53u8, 0x43u8, 0x41u8, 0x50u8, 0x45u8, 0x32u8, 0x2Eu8, 0x30u8,
        0x03u8, 0x01u8, 0x00u8, 0x00u8, 0x00u8,
    ]
}

/// A comment extension carrying `c` as one sub-block.
pub open spec fn spec_comment(c: Seq<u8>) -> Seq<u8> {
    seq![0x21u8, 0xFEu8, c.len() as u8] + c + seq![0x00u8]
}

/// A graphic control extension: disposal keep or none, an optional
/// transparent color index, and a delay in centiseconds.
pub open spec fn spec_graphic_control(keep: bool, transparent: Option<u8>, delay: u16) -> Seq<u8> {
    seq![
        0x21u8,
        0xF9u8,
        0x04u8,
        ((if keep {
            4u8
        } else {
            0u8
        }) | (if transparent is Some {
            1u8
        } else {
            0u8
        })),
        (delay & 0xff) as u8,
        (delay >> 8) as u8,
        (match transparent {
            Some(t) => t,
            None => 0u8,
        }),
        0x00u8,
    ]
}

/// An image descriptor at (`left`, `top`) of size `w` x `h`, without a
/// local color table.
pub open spec fn spec_image_desc(left: u16, top: u16, w: u16, h: u16) -> Seq<u8> {
    seq![
        0x2Cu8,
        (left & 0xff) as u8,
        (left >> 8) as u8,
        (top & 0xff) as u8,
        (top >> 8) as u8,
        (w & 0xff) as u8,
        (w >> 8) as u8,
        (h & 0xff) as u8,
        (h >> 8) as u8,
        0x00u8,
    ]
}

/// The one-byte trailer that closes a GIF stream.
pub open spec fn spec_trailer() -> Seq<u8> {
    seq![0x3Bu8]
}

pub fn push_header(out: &mut Vec<u8>)
    ensures
        final(out)@ == old(out)@ + spec_header(),
{
    out.push(0x47);
    out.push(0x49);
    out.push(0x46);
    out.push(0x38);
    out.push(0x39);
    out.push(0x61);
    proof {
        assert(out@ =~= old(out)@ + spec_header());
    }
}

pub fn push_screen_desc(out: &mut Vec<u8>, w: u16, h: u16, table_len: usize)
    requires
        valid_table_len(table_len as int),
    ensures
        final(out)@ == old(out)@ + spec_screen_desc(w, h, table_len as int),
{
    let lb = len_bits(table_len);
    out.push((w & 0xff) as u8);
    out.push((w >> 8) as u8);
    out.push((h & 0xff) as u8);
    out.push((h >> 8) as u8);
    out.push((0x80u8 | (lb << 4u8)) | lb);
    out.push(0);
    out.push(0);
    proof {
        assert(out@ =~= old(out)@ + spec_screen_desc(w, h, table_len as int));
    }
}

pub fn push_color_table(out: &mut Vec<u8>, table: &Vec<u8>)
    ensures
        final(out)@ == old(out)@ + table@,
{
    let mut i: usize = 0;
    while i < table.len()
        invariant
            i <= table.len(),
            out@ == old(out)@ + table@.take(i as int),
        decreases table.len() - i,
    {
        out.push(table[i]);
        i = i + 1;
        proof {
            assert(out@ =~= old(out)@ + table@.take(i as int));
        }
    }
    proof {
        assert(table@.take(table@.len() as int) =~= table@);
    }
}

pub fn push_loop_forever(out: &mut Vec<u8>)
    ensures
        final(out)@ == old(out)@ + spec_loop_forever(),
{
    out.push(0x21);
    out.push(0xFF);
    out.push(0x0B);
    out.push(0x4E);
    out.push(0x45);
    out.push(0x54);
    out.push(0x53);
    out.push(0x43);
    out.push(0x41);
    out.push(0x50);
    out.push(0x45);
    out.push(0x32);
    out.push(0x2E);
    out.push(0x30);
    out.push(0x03);
    out.push(0x01);
    out.push(0x00);
    out.push(0x00);
    out.push(0x00);
    proof {
        assert(out@ =~= old(out)@ + spec_loop_forever());
    }
}

pub fn push_comment(out: &mut Vec<u8>, c: &Vec<u8>)
    requires
        1 <= c@.len() <= 255,
    ensures
        final(out)@ == old(out)@ + spec_comment(c@),
{
    out.push(0x21);
    out.push(0xFE);
    out.push(c.len() as u8);
    let mut i: usize = 0;
    while i < c.len()
        invariant
            i <= c.len(),
            c@.len() <= 255,
            out@ == old(out)@ + seq![0x21u8, 0xFEu8, c@.len() as u8] + c@.take(i as int),
        decreases c.len() - i,
    {
        out.push(c[i]);
        i = i + 1;
        proof {
            assert(out@ =~= old(out)@ + seq![0x21u8, 0xFEu8, c@.len() as u8] + c@.take(i as int));
        }
    }
    out.push(0x00);
    proof {
        assert(c@.take(c@.len() as int) =~= c@);
        assert(out@ =~= old(out)@ + spec_comment(c@));
    }
}

pub fn push_graphic_control(out: &mut Vec<u8>, keep: bool, transparent: Option<u8>, delay: u16)
    ensures
        final(out)@ == old(out)@ + spec_graphic_control(keep, transparent, delay),
{
    let flags: u8 = (if keep {
        4u8
    } else {
        0u8
    }) | (match transparent {
        Some(_) => 1u8,
        None => 0u8,
    });
    let tidx: u8 = match transparent {
        Some(t) => t,
        None => 0,
    };
    out.push(0x21);
    out.push(0xF9);
    out.push(0x04);
    out.push(flags);
    out.push((delay & 0xff) as u8);
    out.push((delay >> 8) as u8);
    out.push(tidx);
    out.push(0x00);
    proof {
        assert(out@ =~= old(out)@ + spec_graphic_control(keep, transparent, delay));
    }
}

pub fn push_image_desc(out: &mut Vec<u8>, left: u16, top: u16, w: u16, h: u16)
    ensures
        final(out)@ == old(out)@ + spec_image_desc(left, top, w, h),
{
    out.push(0x2C);
    out.push((left & 0xff) as u8);
    out.push((left >> 8) as u8);
    out.push((top & 0xff) as u8);
    out.push((top >> 8) as u8);
    out.push((w & 0xff) as u8);
    out.push((w >> 8) as u8);
    out.push((h & 0xff) as u8);
    out.push((h >> 8) as u8);
    out.push(0x00);
    proof {
        assert(out@ =~= old(out)@ + spec_image_desc(left, top, w, h));
    }
}

pub fn push_trailer(out: &mut Vec<u8>)
    ensures
        final(out)@ == old(out)@ + spec_trailer(),
{
    out.push(0x3B);
    proof {
        assert(out@ =~= old(out)@ + spec_trailer());
    }
}

/// A pixel sequence the image-data encoder accepts: the encoder sizes
/// its code table from the largest pixel value plus one, so the last
/// palette slot (255) may never appear.
pub open spec fn spec_encodable(s: Seq<u8>) -> bool {
    forall|i: int| 0 <= i < s.len() ==> s[i] < 255
}

/// The bytes of one complete Image Data block (minimum LZW code size,
/// compressed sub-blocks, terminator) for the given pixel indices.
pub uninterp spec fn lzw_image_block_of(pixels: Seq<u8>) -> Seq<u8>;

/// Relies on gift's block encoder: writing an `ImageData` block emits the
/// minimum code size, the LZW-compressed pixels split into sub-blocks, and
/// a terminating zero byte; the output depends on the pixels alone. The
/// writer is an in-memory vector, whose writes cannot fail. The encoder
/// derives its minimum code size by adding one to the largest pixel value
/// on a byte, and indexes its initial code table by pixel value, so the
/// value 255 must be excluded; any smaller values (and the empty
/// sequence) are handled without fault.
#[verifier::external_body]
fn encode_image_data_block(pixels: &Vec<u8>) -> (r: Vec<u8>)
    requires
        spec_encodable(pixels@),
    ensures
        r@ == lzw_image_block_of(pixels@),
{
    let mut data = gift::block::ImageData::new(pixels.len());
    data.data_mut().extend_from_slice(pixels);
    let mut out = Vec::new();
    let mut enc = gift::Encoder::new(&mut out).into_block_enc();
    enc.encode(data).expect("image data block");
    out
}

/// Append one Image Data block holding `pixels`.
pub fn push_image_data(out: &mut Vec<u8>, pixels: &Vec<u8>)
    requires
        spec_encodable(pixels@),
    ensures
        final(out)@ == old(out)@ + lzw_image_block_of(pixels@),
{
    let block = encode_image_data_block(pixels);
    let mut i: usize = 0;
    while i < block.len()
        invariant
            i <= block.len(),
            block@ == lzw_image_block_of(pixels@),
            out@ == old(out)@ + block@.take(i as int),
        decreases block.len() - i,
    {
        out.push(block[i]);
        i = i + 1;
        proof {
            assert(out@ =~= old(out)@ + block@.take(i as int));
        }
    }
    proof {
        assert(block@.take(block@.len() as int) =~= block@);
    }
}

} // verus!
