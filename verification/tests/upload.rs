use rotex_wgpu::descriptors::ImageFormat;
use rotex_wgpu::error::{ErrorKind, Severity};
use rotex_wgpu::upload::{
    create_buffer, pad_rows, should_use_staging_upload, validate_texture_upload, write_texture_data,
    TextureWrite,
};

#[test]
fn texture_upload_plan_raises_size_to_one() {
    let data = vec![7u8; 4];
    let plan = validate_texture_upload(ImageFormat::Rgba8Unorm, 0, 0, &data).unwrap();
    assert_eq!(plan.width, 1);
    assert_eq!(plan.height, 1);
    assert_eq!(plan.bytes_per_row, 4);
    assert_eq!(plan.rows_per_image, 1);
    assert_eq!(plan.expected_len, 4);
}

#[test]
fn texture_upload_rejects_short_data() {
    let data = vec![0u8; 15];
    let e = validate_texture_upload(ImageFormat::Rgba8Unorm, 2, 2, &data).unwrap_err();
    assert_eq!(e.severity, Severity::Recoverable);
    assert!(matches!(e.kind, ErrorKind::TextureUploadFailed("texture_data_too_small")));
}

#[test]
fn texture_upload_rejects_overflowing_size() {
    let e = validate_texture_upload(ImageFormat::Rgba8Unorm, u32::MAX, u32::MAX, &[]).unwrap_err();
    assert!(matches!(e.kind, ErrorKind::InvalidDescriptor("texture_size_overflow")));
}

#[test]
fn staging_is_used_for_aligned_rows() {
    assert!(should_use_staging_upload(256));
    assert!(should_use_staging_upload(512));
    assert!(should_use_staging_upload(0));
    assert!(!should_use_staging_upload(100));
}

#[test]
fn narrow_texture_writes_directly_with_exact_bytes() {
    let data: Vec<u8> = (0..20).collect();
    match write_texture_data(ImageFormat::Rgba8Unorm, 2, 2, &data).unwrap() {
        TextureWrite::Direct { plan, data: bytes } => {
            assert_eq!(plan.bytes_per_row, 8);
            assert_eq!(bytes, (0..16).collect::<Vec<u8>>());
        }
        TextureWrite::Staged { .. } => panic!("expected a direct write"),
    }
}

#[test]
fn aligned_texture_goes_through_staging() {
    let data: Vec<u8> = (0..(64 * 2 * 4)).map(|i| (i % 251) as u8).collect();
    match write_texture_data(ImageFormat::Rgba8Unorm, 64, 2, &data).unwrap() {
        TextureWrite::Staged { plan, padded_bytes_per_row, data: bytes } => {
            assert_eq!(plan.bytes_per_row, 256);
            assert_eq!(padded_bytes_per_row, 256);
            assert_eq!(bytes, data);
        }
        TextureWrite::Direct { .. } => panic!("expected a staged write"),
    }
}

#[test]
fn pad_rows_copies_rows_and_zero_fills() {
    let data = vec![1u8, 2, 3, 4, 5, 6, 9];
    let out = pad_rows(&data, 3, 5, 2);
    assert_eq!(out, vec![1, 2, 3, 0, 0, 4, 5, 6, 0, 0]);
    // Layout law: byte c of row r is source byte r * row_len + c inside the row.
    for r in 0..2usize {
        for c in 0..5usize {
            let expected = if c < 3 { data[r * 3 + c] } else { 0 };
            assert_eq!(out[r * 5 + c], expected);
        }
    }
}

#[test]
fn buffers_are_padded_to_copy_alignment() {
    let empty = create_buffer(&[]);
    assert_eq!(empty.size, 4);
    assert!(empty.contents.is_none());
    let five = create_buffer(&[1, 2, 3, 4, 5]);
    assert_eq!(five.size, 8);
    assert_eq!(five.contents.unwrap(), vec![1, 2, 3, 4, 5, 0, 0, 0]);
    let eight = create_buffer(&[9; 8]);
    assert_eq!(eight.size, 8);
    assert_eq!(eight.contents.unwrap(), vec![9; 8]);
    for len in 0..20usize {
        let b = create_buffer(&vec![1u8; len]);
        assert_eq!(b.size % 4, 0);
        assert!(b.size as usize >= len.max(1));
        assert!((b.size as usize) < len.max(1) + 4);
    }
}
