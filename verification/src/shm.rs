//! Sizing a shared-memory buffer that owns its own `wl_shm_pool`.
use std::collections::HashSet;

use vstd::prelude::*;

use crate::request::RequestError;

verus! {

broadcast use vstd::std_specs::hash::group_hash_axioms;

/// Why a shared memory region could not be created.
#[derive(Debug)]
pub enum CreateShmPtrError {
    /// Failed to invoke `memfd_create`.
    FdCreate(std::io::Error),
    /// Unable to resize the in-memory file with `ftruncate`.
    Resize(std::io::Error),
    /// Failed to invoke `mmap` on the in-memory file.
    Mmap(std::io::Error),
}

/// Why a shared memory buffer could not be created.
#[derive(Debug)]
pub enum CreateBufferError {
    /// Format not processed from a `wl_shm::format` event.
    UnsupportedPixelFormat,
    /// Bytes per pixel for format not known.
    UnknownPixelDensity,
    /// Requested size does not fit into protocol message argument.
    SizeOverflow,
    /// Requested size can not be zero.
    ZeroSized,
    /// Failed to create shared memory region.
    CreateShmPtr(CreateShmPtrError),
    /// Failed to request `wl_shm::create_pool`.
    CreatePool(RequestError),
    /// Failed to request `wl_shm_pool::create_buffer`.
    CreateBuffer(RequestError),
}

/// The geometry of a buffer: bytes per row and total bytes.
#[derive(Debug, Clone, Copy, PartialEq, Eq, Structural)]
pub struct ShmBufferLayout {
    /// Bytes per row.
    pub stride: i32,
    /// Bytes of the whole buffer; always positive.
    pub size: i32,
}

/// What checking a buffer request gives: the layout when the format is supported, its density
/// known and the size positive and within an `i32`; else the first check that fails.
pub open spec fn layout_outcome(
    format_supported: bool,
    width: u16,
    height: u16,
    bytes_per_pixel: Option<u8>,
    res: Result<ShmBufferLayout, CreateBufferError>,
) -> bool {
    match res {
        Ok(layout) => {
            &&& format_supported
            &&& bytes_per_pixel matches Some(bpp)
            &&& layout.stride == width * bpp
            &&& layout.size == width * bpp * height
            &&& layout.size > 0
        },
        Err(CreateBufferError::UnsupportedPixelFormat) => !format_supported,
        Err(CreateBufferError::UnknownPixelDensity) => format_supported && bytes_per_pixel is None,
        Err(CreateBufferError::SizeOverflow) => {
            &&& format_supported
            &&& bytes_per_pixel matches Some(bpp)
            &&& width * bpp * height > i32::MAX
        },
        Err(CreateBufferError::ZeroSized) => {
            &&& format_supported
            &&& bytes_per_pixel matches Some(bpp)
            &&& width * bpp * height == 0
        },
        Err(_) => false,
    }
}

/// Checks a buffer request and computes its layout: the pixel format must have been announced
/// by the server (`format_supported`) and have a known density (`bytes_per_pixel`), and the
/// buffer must be non-empty and its size fit in an `i32`.
pub fn shm_buffer_layout(format_supported: bool, width: u16, height: u16, bytes_per_pixel: Option<u8>) -> (res: Result<
    ShmBufferLayout,
    CreateBufferError,
>)
    ensures
        layout_outcome(format_supported, width, height, bytes_per_pixel, res),
{
    if !format_supported {
        return Err(CreateBufferError::UnsupportedPixelFormat);
    }
    // i32 used in the wire protocol but doesn't make sense to be negative from a user's standpoint.
    let height = height as i32;
    let width = width as i32;
    let bytes_per_pixel = match bytes_per_pixel {
        Some(bpp) => bpp,
        None => return Err(CreateBufferError::UnknownPixelDensity),
    };
    // u16 * u8 can't overflow a i32.
    assert(width * bytes_per_pixel <= 65535 * 255) by (nonlinear_arith)
        requires
            0 <= width <= 65535,
            bytes_per_pixel <= 255,
    ;
    let stride = width * (bytes_per_pixel as i32);
    assert(0 <= stride * height) by (nonlinear_arith)
        requires
            0 <= stride,
            0 <= height,
    ;
    let size = match stride.checked_mul(height) {
        Some(size) => size,
        None => return Err(CreateBufferError::SizeOverflow),
    };
    if size == 0 {
        return Err(CreateBufferError::ZeroSized);
    }
    Ok(ShmBufferLayout { stride, size })
}

/// A buffer's layout is rows of `width * bytes_per_pixel` bytes, `height` of them: on success
/// the stride is the row length, whatever the height, and the size is the stride times the
/// height; an unsupported format is refused before anything else, and a supported format with
/// a known density is accepted exactly when that size is positive and fits in an `i32`.
pub proof fn lemma_layout_is_rows(format_supported: bool, width: u16, height: u16, bytes_per_pixel: Option<u8>)
    ensures
        forall|layout: ShmBufferLayout, bpp: u8|
            layout_outcome(format_supported, width, height, bytes_per_pixel, Ok(layout)) && bytes_per_pixel == Some(
                bpp,
            ) ==> layout.stride == width * bpp && layout.size == layout.stride * height,
        forall|res: Result<ShmBufferLayout, CreateBufferError>|
            #![trigger layout_outcome(format_supported, width, height, bytes_per_pixel, res)]
            layout_outcome(format_supported, width, height, bytes_per_pixel, res) ==> {
                &&& !format_supported ==> (res matches Err(CreateBufferError::UnsupportedPixelFormat))
                &&& format_supported && bytes_per_pixel is None ==> (res matches Err(
                    CreateBufferError::UnknownPixelDensity,
                ))
                &&& forall|bpp: u8|
                    format_supported && bytes_per_pixel == Some(bpp) ==> (res is Ok <==> 0 < width * bpp * height
                        <= i32::MAX)
            },
{
}

/// The pixel formats a `wl_shm` global has announced, by their `wl_shm::format` codes.
pub struct ShmFormats {
    supported_formats: HashSet<u32>,
}

impl View for ShmFormats {
    type V = Set<u32>;

    closed spec fn view(&self) -> Set<u32> {
        self.supported_formats@
    }
}

impl ShmFormats {
    /// No format announced yet.
    pub fn new() -> (formats: Self)
        ensures
            formats@ == Set::<u32>::empty(),
    {
        ShmFormats { supported_formats: HashSet::new() }
    }

    /// The internally buffered set of formats announced by the server.
    pub fn get_supported_formats(&self) -> (formats: &HashSet<u32>)
        ensures
            formats@ == self@,
    {
        &self.supported_formats
    }

    /// Whether `format` has been announced.
    pub fn contains(&self, format: u32) -> (supported: bool)
        ensures
            supported == self@.contains(format),
    {
        self.supported_formats.contains(&format)
    }

    /// Adds the formats of the queued `wl_shm::format` events, in any order; formats
    /// announced before stay.
    pub fn sync_supported_formats(&mut self, announced: &Vec<u32>)
        ensures
            final(self)@ == old(self)@.union(announced@.to_set()),
    {
        let mut i: usize = 0;
        while i < announced.len()
            invariant
                i <= announced@.len(),
                self@ == old(self)@.union(announced@.take(i as int).to_set()),
            decreases announced@.len() - i,
        {
            let format = announced[i];
            self.supported_formats.insert(format);
            proof {
                assert(announced@.take(i + 1) =~= announced@.take(i as int).push(format));
                assert(announced@.take(i + 1).to_set() =~= announced@.take(i as int).to_set().insert(format))
                    by {
                    announced@.take(i as int).lemma_push_to_set_commute(format);
                }
                assert(self@ =~= old(self)@.union(announced@.take(i + 1).to_set()));
            }
            i = i + 1;
        }
        proof {
            assert(announced@.take(announced@.len() as int) =~= announced@);
        }
    }

    /// Checks a request for a buffer of `format` and computes its layout, as
    /// [`shm_buffer_layout`] does with the format's support looked up here.
    pub fn create_shm_buffer_layout(&self, width: u16, height: u16, format: u32, bytes_per_pixel: Option<u8>) -> (res:
        Result<ShmBufferLayout, CreateBufferError>)
        ensures
            layout_outcome(self@.contains(format), width, height, bytes_per_pixel, res),
    {
        let supported = self.contains(format);
        shm_buffer_layout(supported, width, height, bytes_per_pixel)
    }
}

} // verus!
