use cosplay::shm::{shm_buffer_layout, CreateBufferError as CreateShmBufferError, ShmBufferLayout, ShmFormats};
use cosplay::shm_pool::{checked_stride, CreateBufferError};

// Pixel densities of the formats the tests use.
const ARGB8888: Option<u8> = Some(4);
const Y8: Option<u8> = Some(1);
const UNKNOWN: Option<u8> = None;

#[test]
fn non_zero_size_ok() {
    let result = checked_stride(256, 8, 8, ARGB8888);
    assert!(result.is_ok());
}

#[test]
fn zero_size_ok() {
    let result = checked_stride(0, 0, 0, ARGB8888);
    assert!(result.is_ok());
}

#[test]
fn size_uses_stride() {
    let error = checked_stride(4, 2, 2, ARGB8888).unwrap_err();
    assert!(matches!(error, CreateBufferError::InsufficientBytes));

    let result = checked_stride(4, 2, 2, Y8);
    assert!(result.is_ok());
}

#[test]
fn insufficient_bytes_error() {
    let error = checked_stride(9, 5, 2, Y8).unwrap_err();
    assert!(matches!(error, CreateBufferError::InsufficientBytes));

    let result = checked_stride(9, 3, 3, Y8);
    assert!(result.is_ok());
}

#[test]
fn unknown_density_err() {
    let error = checked_stride(0, 0, 0, UNKNOWN).unwrap_err();
    assert!(matches!(error, CreateBufferError::UnknownPixelDensity));
}

#[test]
fn pointer_overflow_err() {
    let error = checked_stride(0, u16::MAX as i32, u16::MAX as i32, ARGB8888).unwrap_err();
    assert!(matches!(error, CreateBufferError::PointerOverflow));
}

#[test]
fn stride_value() {
    assert_eq!(Ok(12), checked_stride(36, 3, 3, ARGB8888));
}

#[test]
fn create_buffer_unknown_format_err() {
    let error = shm_buffer_layout(false, 0, 0, ARGB8888).unwrap_err();
    assert!(matches!(error, CreateShmBufferError::UnsupportedPixelFormat));
}

#[test]
fn create_buffer_unknown_density_err() {
    let error = shm_buffer_layout(true, 0, 0, UNKNOWN).unwrap_err();
    assert!(matches!(error, CreateShmBufferError::UnknownPixelDensity));
}

#[test]
fn create_buffer_size_overflow() {
    assert!(matches!(shm_buffer_layout(true, u16::MAX, u16::MAX, Y8), Err(CreateShmBufferError::SizeOverflow)));
}

#[test]
fn create_buffer_with_stride() {
    let layout = shm_buffer_layout(true, 2, 2, ARGB8888).unwrap();
    assert_eq!(2 * 2 * 4, layout.size);

    let layout = shm_buffer_layout(true, 2, 2, Y8).unwrap();
    assert_eq!(2 * 2, layout.size);
}

#[test]
fn create_buffer_zero_sized_err() {
    assert!(matches!(shm_buffer_layout(true, 0, 5, ARGB8888), Err(CreateShmBufferError::ZeroSized)));
}

#[test]
fn create_buffer_layout_values() {
    assert_eq!(ShmBufferLayout { stride: 512, size: 65536 }, shm_buffer_layout(true, 128, 128, ARGB8888).unwrap());
}

// `wl_shm::format` codes of the formats the tests announce.
const FORMAT_ARGB8888: u32 = 0;
const FORMAT_C8: u32 = 0x2020_3843;
const FORMAT_XRGB4444: u32 = 0x3231_5258;

#[test]
fn sync_supported_formats() {
    let mut formats = ShmFormats::new();

    assert!(formats.get_supported_formats().is_empty());

    formats.sync_supported_formats(&Vec::new());

    assert!(formats.get_supported_formats().is_empty());

    formats.sync_supported_formats(&vec![FORMAT_C8, FORMAT_XRGB4444]);

    assert!(formats.get_supported_formats().contains(&FORMAT_C8));
    assert!(formats.get_supported_formats().contains(&FORMAT_XRGB4444));
    assert_eq!(2, formats.get_supported_formats().len());
}

#[test]
fn sync_keeps_earlier_formats() {
    let mut formats = ShmFormats::new();
    formats.sync_supported_formats(&vec![FORMAT_C8]);
    formats.sync_supported_formats(&vec![FORMAT_XRGB4444, FORMAT_XRGB4444]);
    assert!(formats.contains(FORMAT_C8));
    assert!(formats.contains(FORMAT_XRGB4444));
    assert!(!formats.contains(FORMAT_ARGB8888));
    assert_eq!(2, formats.get_supported_formats().len());
}

#[test]
fn create_layout_needs_announced_format() {
    let mut formats = ShmFormats::new();
    assert!(matches!(
        formats.create_shm_buffer_layout(2, 2, FORMAT_ARGB8888, ARGB8888),
        Err(CreateShmBufferError::UnsupportedPixelFormat)
    ));

    formats.sync_supported_formats(&vec![FORMAT_ARGB8888]);
    let layout = formats.create_shm_buffer_layout(2, 2, FORMAT_ARGB8888, ARGB8888).unwrap();
    assert_eq!(ShmBufferLayout { stride: 8, size: 16 }, layout);
}
