//! Decoded, ready-to-upload image bytes.

use vstd::prelude::*;

use std::sync::Arc;

verus! {

/// One decoded image: tightly packed RGBA8 (`width * height * 4` bytes, row-major, no padding).
/// `rgba` is shared, so that it can cross channels without a deep copy.
#[derive(Debug)]
pub struct ImageData {
    pub width: u32,
    pub height: u32,
    pub rgba: Arc<[u8]>,
}

impl ImageData {
    /// Whether the dimensions are not zero and the buffer has the right length.
    pub open spec fn well_formed(self) -> bool {
        &&& self.width > 0
        &&& self.height > 0
        &&& self.rgba@.len() == self.width * self.height * 4
    }

    /// Builds an image from raw RGBA8 bytes. `None` if a dimension is zero or the buffer has the
    /// wrong length, so that a malformed decode is dropped.
    pub fn from_rgba(width: u32, height: u32, rgba: Vec<u8>) -> (r: Option<ImageData>)
        ensures
            r is Some <==> width > 0 && height > 0 && rgba@.len() == width * height * 4,
            r is Some ==> r->0.well_formed() && r->0.width == width && r->0.height == height
                && r->0.rgba@ == rgba@,
    {
        if width == 0 || height == 0 {
            return None;
        }
        proof {
            assert(width as u128 * height as u128 <= 0xFFFF_FFFFu128 * 0xFFFF_FFFFu128)
                by (nonlinear_arith)
                requires
                    width as u128 <= 0xFFFF_FFFF,
                    height as u128 <= 0xFFFF_FFFF,
            ;
        }
        if rgba.len() as u128 != width as u128 * height as u128 * 4 {
            return None;
        }
        Some(ImageData { width, height, rgba: shared_bytes(rgba) })
    }

    /// Decodes an encoded image. A PNG yields the size and the pixels that the decoder hands out,
    /// as [`ImageData::from_rgba`] takes them, unless it cannot be decoded, has no pixels, or has a
    /// palette that ends within a color. A JPEG is only recognised: its pixels come in through
    /// [`ImageData::from_rgba`]. Nothing else is an image.
    pub fn decode(bytes: &[u8]) -> (r: Decoded)
        ensures
            match encoding_of(bytes@) {
                Encoding::Png => if ragged_palette(bytes@) {
                    r is Undecodable
                } else {
                    match decoded_png(bytes@) {
                        Some(p) => {
                            &&& r is Image <==> p.0 > 0 && p.1 > 0
                            &&& r is Undecodable <==> p.0 == 0 || p.1 == 0
                            &&& r matches Decoded::Image(i) ==> i.well_formed() && i.width == p.0
                                && i.height == p.1 && i.rgba@ == p.2
                        },
                        None => r is Undecodable,
                    }
                },
                Encoding::Jpeg => r is Jpeg,
                Encoding::Other => r is Undecodable,
            },
    {
        match guess_encoding(bytes) {
            Encoding::Png => {
                if has_ragged_palette(bytes) {
                    return Decoded::Undecodable;
                }
                match decode_png(bytes) {
                    Some((width, height, rgba)) => match ImageData::from_rgba(width, height, rgba) {
                        Some(image) => Decoded::Image(image),
                        None => Decoded::Undecodable,
                    },
                    None => Decoded::Undecodable,
                }
            },
            Encoding::Jpeg => Decoded::Jpeg,
            Encoding::Other => Decoded::Undecodable,
        }
    }
}

/// How an image is encoded.
#[derive(Debug, Clone, Copy, PartialEq, Eq, Structural)]
pub enum Encoding {
    Png,
    Jpeg,
    Other,
}

/// What [`ImageData::decode`] makes of some bytes.
#[derive(Debug)]
pub enum Decoded {
    Image(ImageData),
    /// A JPEG, whose pixels the caller decodes.
    Jpeg,
    Undecodable,
}

/// The encoding that the first bytes of an image announce.
pub open spec fn encoding_of(bytes: Seq<u8>) -> Encoding {
    if seq![0x89u8, 0x50, 0x4E, 0x47, 0x0D, 0x0A, 0x1A, 0x0A].is_prefix_of(bytes) {
        Encoding::Png
    } else if seq![0xFFu8, 0xD8, 0xFF].is_prefix_of(bytes) {
        Encoding::Jpeg
    } else {
        Encoding::Other
    }
}

/// `image::guess_format`, with every format but PNG and JPEG taken as one. It compares the first
/// bytes with a fixed table of signatures, in which those of PNG and JPEG come first.
#[verifier::external_body]
fn guess_encoding(bytes: &[u8]) -> (r: Encoding)
    ensures
        r == encoding_of(bytes@),
{
    match ::image::guess_format(bytes) {
        Ok(::image::ImageFormat::Png) => Encoding::Png,
        Ok(::image::ImageFormat::Jpeg) => Encoding::Jpeg,
        _ => Encoding::Other,
    }
}

// A PNG is its signature and then chunks: a length, most significant byte first, a name of four
// letters, as many bytes as the length says, and a checksum of four bytes.

/// The length that the chunk at `at` gives for its data.
pub open spec fn chunk_len(b: Seq<u8>, at: int) -> int {
    0x100_0000 * b[at] + 0x1_0000 * b[at + 1] + 0x100 * b[at + 2] + b[at + 3]
}

/// Whether the chunk at `at` is the palette (`PLTE`).
pub open spec fn is_palette(b: Seq<u8>, at: int) -> bool {
    b[at + 4] == 0x50 && b[at + 5] == 0x4C && b[at + 6] == 0x54 && b[at + 7] == 0x45
}

/// Whether the chunk at `at` holds pixels (`IDAT`).
pub open spec fn is_image_data(b: Seq<u8>, at: int) -> bool {
    b[at + 4] == 0x49 && b[at + 5] == 0x44 && b[at + 6] == 0x41 && b[at + 7] == 0x54
}

/// Whether the first palette from `at` on, and before any pixels, ends within a color: its length
/// is no multiple of three.
pub open spec fn ragged_from(b: Seq<u8>, at: int) -> bool
    decreases b.len() - at,
{
    if at < 0 || at + 8 > b.len() || is_image_data(b, at) {
        false
    } else if is_palette(b, at) {
        chunk_len(b, at) % 3 != 0
    } else if at + 12 + chunk_len(b, at) > b.len() {
        false
    } else {
        ragged_from(b, at + 12 + chunk_len(b, at))
    }
}

/// Whether a PNG is indexed, by the color type in its header, with a palette that ends within a
/// color.
pub open spec fn ragged_palette(b: Seq<u8>) -> bool {
    b.len() > 25 && b[25] == 3 && ragged_from(b, 8)
}

/// Whether an indexed PNG has a palette that ends within a color.
pub fn has_ragged_palette(bytes: &[u8]) -> (r: bool)
    ensures
        r == ragged_palette(bytes@),
{
    if bytes.len() <= 25 || bytes[25] != 3 {
        return false;
    }
    let mut at: usize = 8;
    while bytes.len() - at >= 8
        invariant
            at <= bytes@.len(),
            bytes@.len() > 25,
            bytes@[25] == 3,
            ragged_palette(bytes@) == ragged_from(bytes@, at as int),
        decreases bytes@.len() - at,
    {
        let name: [u8; 4] = [bytes[at + 4], bytes[at + 5], bytes[at + 6], bytes[at + 7]];
        if name[0] == 0x49 && name[1] == 0x44 && name[2] == 0x41 && name[3] == 0x54 {
            return false;
        }
        let len: u32 = 0x100_0000 * (bytes[at] as u32) + 0x1_0000 * (bytes[at + 1] as u32) + 0x100
            * (bytes[at + 2] as u32) + bytes[at + 3] as u32;
        if name[0] == 0x50 && name[1] == 0x4C && name[2] == 0x54 && name[3] == 0x45 {
            return len % 3 != 0;
        }
        let left: usize = bytes.len() - at - 8;
        if (left as u64) < len as u64 + 4 {
            return false;
        }
        at = at + 12 + len as usize;
    }
    false
}

/// What `image::load_from_memory_with_format` makes of some bytes as a PNG: width, height and
/// RGBA8 pixels, or nothing when it cannot decode them.
pub uninterp spec fn decoded_png(bytes: Seq<u8>) -> Option<(u32, u32, Seq<u8>)>;

/// `image::load_from_memory_with_format` for a PNG, with the outcome as plain values: the size and
/// the RGBA8 pixels (`DynamicImage::to_rgba8`), or `None` when the bytes cannot be decoded.
///
/// The outcome depends on the bytes alone, and is named [`decoded_png`]: with the format given, the
/// crate asks no decoding hook, and its limit on what a decoded image takes is fixed; that this much
/// memory can be had is taken for granted, as with any vector. There are four bytes to each pixel.
///
/// An indexed image whose palette is no whole number of colors is shut out: the decoder takes the
/// palette in threes and panics on what is left over.
#[verifier::external_body]
fn decode_png(bytes: &[u8]) -> (r: Option<(u32, u32, Vec<u8>)>)
    requires
        !ragged_palette(bytes@),
    ensures
        match r {
            Some(p) => decoded_png(bytes@) == Some((p.0, p.1, p.2@)),
            None => decoded_png(bytes@) is None,
        },
        r matches Some(p) ==> p.2@.len() == p.0 * p.1 * 4,
{
    let format = ::image::ImageFormat::Png;
    let rgba = ::image::load_from_memory_with_format(bytes, format).ok()?.to_rgba8();
    let (width, height) = rgba.dimensions();
    Some((width, height, rgba.into_raw()))
}

/// `Arc::from` on a vector of bytes: the same bytes behind a shared handle.
#[verifier::external_body]
fn shared_bytes(bytes: Vec<u8>) -> (r: Arc<[u8]>)
    ensures
        r@ == bytes@,
{
    Arc::from(bytes)
}

/// An image is a PNG exactly when it starts with the eight bytes of a PNG, and a JPEG exactly when it
/// starts with the three of a JPEG.
pub proof fn signatures_tell_the_encoding(bytes: Seq<u8>)
    ensures
        encoding_of(bytes) == Encoding::Png <==> bytes.len() >= 8 && bytes[0] == 0x89 && bytes[1]
            == 0x50 && bytes[2] == 0x4E && bytes[3] == 0x47 && bytes[4] == 0x0D && bytes[5] == 0x0A
            && bytes[6] == 0x1A && bytes[7] == 0x0A,
        encoding_of(bytes) == Encoding::Jpeg <==> bytes.len() >= 3 && bytes[0] == 0xFF && bytes[1]
            == 0xD8 && bytes[2] == 0xFF,
{
    let png = seq![0x89u8, 0x50, 0x4E, 0x47, 0x0D, 0x0A, 0x1A, 0x0A];
    let jpeg = seq![0xFFu8, 0xD8, 0xFF];
    if png.is_prefix_of(bytes) {
        assert(bytes.subrange(0, 8)[0] == bytes[0] && bytes.subrange(0, 8)[1] == bytes[1]
            && bytes.subrange(0, 8)[2] == bytes[2] && bytes.subrange(0, 8)[3] == bytes[3]
            && bytes.subrange(0, 8)[4] == bytes[4] && bytes.subrange(0, 8)[5] == bytes[5]
            && bytes.subrange(0, 8)[6] == bytes[6] && bytes.subrange(0, 8)[7] == bytes[7]);
    } else if bytes.len() >= 8 && bytes[0] == 0x89 && bytes[1] == 0x50 && bytes[2] == 0x4E
        && bytes[3] == 0x47 && bytes[4] == 0x0D && bytes[5] == 0x0A && bytes[6] == 0x1A && bytes[7]
        == 0x0A {
        assert(png =~= bytes.subrange(0, 8));
    }
    if jpeg.is_prefix_of(bytes) {
        assert(bytes.subrange(0, 3)[0] == bytes[0] && bytes.subrange(0, 3)[1] == bytes[1]
            && bytes.subrange(0, 3)[2] == bytes[2]);
    } else if bytes.len() >= 3 && bytes[0] == 0xFF && bytes[1] == 0xD8 && bytes[2] == 0xFF {
        assert(jpeg =~= bytes.subrange(0, 3));
    }
}

/// Raw pixels make an image exactly when neither side is zero and there are four bytes to each
/// pixel, and it holds them as they are.
pub proof fn images_hold_their_pixels(
    width: u32,
    height: u32,
    rgba: Vec<u8>,
    r: Option<ImageData>,
)
    requires
        call_ensures(ImageData::from_rgba, (width, height, rgba), r),
    ensures
        r is Some <==> width != 0 && height != 0 && rgba@.len() == 4 * (width * height),
        r is Some ==> r->0.width == width && r->0.height == height && r->0.rgba@ == rgba@,
{
    assert(width * height * 4 == 4 * (width * height));
}

/// Decoding gives an image only for a PNG with pixels, the one that the decoder hands out; it tells
/// a JPEG from everything else and never makes an image of one.
pub proof fn only_pngs_are_decoded(bytes: &[u8], r: Decoded)
    requires
        call_ensures(ImageData::decode, (bytes,), r),
    ensures
        r is Jpeg <==> encoding_of(bytes@) == Encoding::Jpeg,
        r is Image ==> encoding_of(bytes@) == Encoding::Png && decoded_png(bytes@) is Some,
        r is Image ==> r->Image_0.width == (decoded_png(bytes@)->0).0 && r->Image_0.height == (
        decoded_png(bytes@)->0).1 && r->Image_0.rgba@ == (decoded_png(bytes@)->0).2,
        r is Image ==> r->Image_0.width > 0 && r->Image_0.height > 0,
        encoding_of(bytes@) == Encoding::Png && !ragged_palette(bytes@) && decoded_png(bytes@)
            is Some && (decoded_png(bytes@)->0).0 > 0 && (decoded_png(bytes@)->0).1 > 0
            ==> r is Image,
{
}

/// Only an indexed PNG has a palette to be ragged. The chunks behind the signature are passed over,
/// each by its length, most significant byte first, up to the palette, which is ragged exactly when
/// its length is no multiple of three; pixels or the end of the file end the search.
pub proof fn palettes_are_found_chunk_by_chunk(b: Seq<u8>, at: int)
    requires
        at >= 8,
    ensures
        ragged_palette(b) ==> b.len() > 25 && b[25] == 3,
        b.len() > 25 && b[25] == 3 ==> ragged_palette(b) == ragged_from(b, 8),
        at + 8 > b.len() ==> !ragged_from(b, at),
        at + 8 <= b.len() ==> {
            let len = 0x100_0000 * b[at] + 0x1_0000 * b[at + 1] + 0x100 * b[at + 2] + b[at + 3];
            let name = b.subrange(at + 4, at + 8);
            let palette = seq![0x50u8, 0x4C, 0x54, 0x45];
            let pixels = seq![0x49u8, 0x44, 0x41, 0x54];
            &&& name == pixels ==> !ragged_from(b, at)
            &&& name == palette ==> (ragged_from(b, at) <==> len % 3 != 0)
            &&& name != palette && name != pixels && at + 12 + len > b.len() ==> !ragged_from(b, at)
            &&& name != palette && name != pixels && at + 12 + len <= b.len() ==> ragged_from(b, at)
                == ragged_from(b, at + 12 + len)
        },
{
    if at + 8 <= b.len() {
        let name = b.subrange(at + 4, at + 8);
        let palette = seq![0x50u8, 0x4C, 0x54, 0x45];
        let pixels = seq![0x49u8, 0x44, 0x41, 0x54];
        assert(name[0] == b[at + 4] && name[1] == b[at + 5] && name[2] == b[at + 6] && name[3]
            == b[at + 7]);
        if is_palette(b, at) {
            assert(name =~= palette);
            assert(palette[0] != pixels[0]);
        } else {
            assert(name != palette);
        }
        if is_image_data(b, at) {
            assert(name =~= pixels);
        } else {
            assert(name != pixels);
        }
    }
}

} // verus!
