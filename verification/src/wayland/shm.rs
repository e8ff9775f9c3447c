//! Shared-memory buffers for the compositor to write captures into: how big they are.

use super::capture::Constraints;
use vstd::prelude::*;

verus! {

/// Bytes per pixel for every format this program deals in.
///
/// Both formats the compositor offers -- `Xrgb8888` and `Argb8888` -- are 32-bit. Named so the
/// arithmetic below reads as something other than a stray 4.
pub const BYTES_PER_PIXEL: usize = 4;

/// How many bytes an image of this size takes.
pub open spec fn image_bytes(width: int, height: int) -> int {
    width * height * BYTES_PER_PIXEL
}

/// Whether an image of this size can be held in memory at all.
pub open spec fn sizeable(width: int, height: int) -> bool {
    0 <= width && 0 <= height && image_bytes(width, height) <= usize::MAX
}

/// A buffer the compositor can write a capture into: one image, in a file of its own.
#[derive(Debug, Clone, Copy, PartialEq, Eq, Structural)]
pub struct Buffer {
    pub width: i32,
    pub height: i32,
    /// The bytes from the start of one row to the start of the next.
    pub stride: i32,
    /// The bytes of the whole image.
    pub size: usize,
}

impl Buffer {
    /// The buffer for what the compositor wants.
    pub fn new(constraints: Constraints) -> (r: Buffer)
        requires
            constraints.fits(),
        ensures
            r.width == constraints.width,
            r.height == constraints.height,
            r.stride == constraints.width * BYTES_PER_PIXEL,
            r.size == image_bytes(constraints.width as int, constraints.height as int),
    {
        let (width, height) = (constraints.width as i32, constraints.height as i32);
        Buffer {
            width,
            height,
            stride: width * BYTES_PER_PIXEL as i32,
            size: Buffer::size_for(width, height),
        }
    }

    /// Whether [`Buffer::size_for`] has an answer for this size.
    pub fn has_size(width: i32, height: i32) -> (r: bool)
        ensures
            r == sizeable(width as int, height as int),
    {
        if width < 0 || height < 0 {
            return false;
        }
        let (w, h): (u128, u128) = (width as u128, height as u128);
        let pixel: u128 = BYTES_PER_PIXEL as u128;
        assert(0 <= w * h <= 0x4000_0000_0000_0000) by (nonlinear_arith)
            requires
                0 <= w <= 0x7fff_ffff,
                0 <= h <= 0x7fff_ffff,
        ;
        assert((w * h) * pixel == (w * h) * 4) by (nonlinear_arith)
            requires
                pixel == 4,
        ;
        w * h * pixel <= usize::MAX as u128
    }

    /// How many bytes an image of this size needs.
    pub fn size_for(width: i32, height: i32) -> (r: usize)
        requires
            sizeable(width as int, height as int),
        ensures
            r == image_bytes(width as int, height as int),
    {
        assert(0 <= width * height) by (nonlinear_arith)
            requires
                0 <= width,
                0 <= height,
        ;
        width as usize * height as usize * BYTES_PER_PIXEL
    }
}

/// An image takes four bytes for each of its pixels, and can be held where that many can be
/// counted.
pub proof fn an_image_is_four_bytes_a_pixel(width: int, height: int)
    ensures
        image_bytes(width, height) == 4 * (width * height),
        sizeable(width, height) <==> width >= 0 && height >= 0 && 4 * (width * height)
            <= usize::MAX,
{
    assert(width * height * 4 == 4 * (width * height)) by (nonlinear_arith);
}

} // verus!
