//! What is asked of an encoded image: whether it is a PNG image, and an identifier for it.

use std::hash::BuildHasher;
use std::io::Cursor;
use vstd::prelude::*;

verus! {

/// The first eight bytes of every PNG image.
pub open spec fn png_signature() -> Seq<u8> {
    seq![137u8, 80, 78, 71, 13, 10, 26, 10]
}

/// The number that four bytes give, the most significant byte first.
pub open spec fn big_endian(bytes: Seq<u8>, start: int) -> int {
    bytes[start] * 0x1000000 + bytes[start + 1] * 0x10000 + bytes[start + 2] * 0x100 + bytes[start
        + 3]
}

/// Whether some bytes start as a PNG image of a width and height does.
pub open spec fn starts_as_png(bytes: Seq<u8>, width: u32, height: u32) -> bool {
    &&& bytes.len() >= 24
    &&& bytes.take(8) == png_signature()
    &&& width == big_endian(bytes, 16)
    &&& height == big_endian(bytes, 20)
}

/// The width and height that the decoder reads from a PNG image on a machine with addresses of
/// `address_bits` bits, or nothing when it does not accept the image.
pub uninterp spec fn png_dimensions(bytes: Seq<u8>, address_bits: u32) -> Option<(u32, u32)>;

/// Whether the decoder of this machine accepts a PNG image.
pub open spec fn is_png(bytes: Seq<u8>) -> bool {
    png_dimensions(bytes, usize::BITS) is Some
}

/// Calls `image::ImageReader::into_dimensions` on a reader of PNG images. Of the images that it
/// accepts only the start is described: the signature, and the width and height in the header.
/// The outcome depends on the width of an address too, because an image must fit into memory.
#[verifier::external_body]
pub(crate) fn read_png_dimensions(bytes: &Vec<u8>) -> (dimensions: Option<(u32, u32)>)
    ensures
        dimensions == png_dimensions(bytes@, usize::BITS),
        dimensions matches Some((width, height)) ==> starts_as_png(bytes@, width, height),
{
    image::ImageReader::with_format(Cursor::new(bytes), image::ImageFormat::Png)
        .into_dimensions()
        .ok()
}

/// Calls `rustc_hash::FxBuildHasher` through `hash_one`: an identifier for the bytes. It is the
/// same for the same bytes on one machine; machines of different kinds compute it differently,
/// so nothing is stated of its value.
#[verifier::external_body]
pub(crate) fn hash(bytes: &Vec<u8>) -> (id: u64) {
    rustc_hash::FxBuildHasher.hash_one(bytes)
}

} // verus!
