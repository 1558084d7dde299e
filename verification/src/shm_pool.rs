//! Carving a buffer out of a `wl_shm_pool`.
use vstd::prelude::*;

use crate::request::RequestError;

verus! {

/// Marker: the pool has no buffer reserved.
pub struct Available {
    _priv: (),
}

/// Marker: the pool's memory is reserved by a buffer.
pub struct Reserved {
    _priv: (),
}

/// Why a buffer could not be created from a pool.
#[derive(Debug, Clone, Copy, PartialEq, Eq, Structural)]
pub enum CreateBufferError {
    /// Provided region overflows the max pointer size.
    PointerOverflow,
    /// Bytes per pixel for format not known.
    UnknownPixelDensity,
    /// Not enough bytes left in pool.
    InsufficientBytes,
    /// Failed to request `wl_shm_pool::create_buffer`.
    Request(RequestError),
}

/// The stride of a `width` by `height` buffer with `bytes_per_pixel` bytes per pixel (`None`
/// for a format whose density is unknown) in a pool of `buffer_size` bytes.
pub open spec fn spec_checked_stride(buffer_size: i32, height: i32, width: i32, bytes_per_pixel: Option<u8>) -> Result<
    i32,
    CreateBufferError,
> {
    match bytes_per_pixel {
        None => Err(CreateBufferError::UnknownPixelDensity),
        Some(bpp) => {
            let stride = width * bpp;
            let size = stride * height;
            if size > i32::MAX {
                Err(CreateBufferError::PointerOverflow)
            } else if size > buffer_size {
                Err(CreateBufferError::InsufficientBytes)
            } else {
                Ok(stride as i32)
            }
        },
    }
}

/// Computes the stride of a buffer and checks that it fits in the pool.
///
/// Width and height come from `u16` values; the pixel density is what the pixel format gives.
pub fn checked_stride(buffer_size: i32, height: i32, width: i32, bytes_per_pixel: Option<u8>) -> (res: Result<
    i32,
    CreateBufferError,
>)
    requires
        0 <= height <= u16::MAX,
        0 <= width <= u16::MAX,
    ensures
        res == spec_checked_stride(buffer_size, height, width, bytes_per_pixel),
{
    let bytes_per_pixel = match bytes_per_pixel {
        Some(bpp) => bpp,
        None => return Err(CreateBufferError::UnknownPixelDensity),
    };
    // u16 * u8 can't overflow a i32.
    assert(width * bytes_per_pixel <= 65535 * 255) by (nonlinear_arith)
        requires
            0 <= width <= 65535,
            bytes_per_pixel <= 255,
    ;
    let stride = width * (bytes_per_pixel as i32);
    let new_size = match stride.checked_mul(height) {
        Some(size) => size,
        None => return Err(CreateBufferError::PointerOverflow),
    };
    if new_size > buffer_size {
        return Err(CreateBufferError::InsufficientBytes);
    }
    Ok(stride)
}

/// The stride is the byte length of one row, `width * bytes_per_pixel`, whatever the height;
/// the buffer succeeds exactly when its `stride * height` bytes fit both in an `i32` and in
/// the pool, and an unknown density is always refused.
pub proof fn lemma_stride_is_row_length(buffer_size: i32, height: i32, width: i32, bytes_per_pixel: Option<u8>)
    requires
        0 <= height <= u16::MAX,
        0 <= width <= u16::MAX,
    ensures
        bytes_per_pixel is None ==> spec_checked_stride(buffer_size, height, width, bytes_per_pixel)
            == Err::<i32, CreateBufferError>(CreateBufferError::UnknownPixelDensity),
        forall|bpp: u8|
            bytes_per_pixel == Some(bpp) ==> {
                &&& (spec_checked_stride(buffer_size, height, width, bytes_per_pixel) is Ok <==> width * bpp * height
                    <= buffer_size)
                &&& (spec_checked_stride(buffer_size, height, width, bytes_per_pixel) matches Ok(stride) ==> stride
                    == width * bpp)
            },
{
    assert forall|bpp: u8| bytes_per_pixel == Some(bpp) implies {
        &&& (spec_checked_stride(buffer_size, height, width, bytes_per_pixel) is Ok <==> width * bpp * height
            <= buffer_size)
        &&& (spec_checked_stride(buffer_size, height, width, bytes_per_pixel) matches Ok(stride) ==> stride == width
            * bpp)
    } by {
        assert(0 <= width * bpp <= 65535 * 255) by (nonlinear_arith)
            requires
                0 <= width <= 65535,
                bpp <= 255,
        ;
        assert(width * bpp * height == (width * bpp) * height);
    }
}

} // verus!
