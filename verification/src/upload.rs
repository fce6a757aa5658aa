//! Upload planning: texture-size validation, the row layout of texture
//! uploads (direct or through a padded staging buffer), and the zero-padded
//! contents of freshly created vertex and index buffers.

use vstd::prelude::*;

use crate::descriptors::{at_least_one, ImageFormat};
use crate::error::{recoverable_error, Error, ErrorKind};
use crate::layout::{bytes_per_pixel, texel_bytes};
use crate::numeric::{align_to, align_to_u64, round_up};
use crate::wgpu_api::{copy_buffer_alignment, copy_bytes_per_row_alignment};

verus! {

/// `count` zero bytes.
pub open spec fn zeros(count: nat) -> Seq<u8> {
    Seq::new(count, |i: int| 0u8)
}

/// Appends `data[start..end]` to `out`.
fn append_range(out: &mut Vec<u8>, data: &[u8], start: usize, end: usize)
    requires
        start <= end <= data@.len(),
    ensures
        final(out)@ == old(out)@ + data@.subrange(start as int, end as int),
{
    let ghost initial = out@;
    let mut i = start;
    while i < end
        invariant
            start <= i <= end <= data@.len(),
            out@ == initial + data@.subrange(start as int, i as int),
        decreases end - i,
    {
        out.push(data[i]);
        proof {
            assert(data@.subrange(start as int, i + 1) =~= data@.subrange(start as int, i as int).push(data@[i as int]));
        }
        i += 1;
    }
}

/// Appends `count` zero bytes to `out`.
fn append_zeros(out: &mut Vec<u8>, count: usize)
    ensures
        final(out)@ == old(out)@ + zeros(count as nat),
{
    let ghost initial = out@;
    let mut i: usize = 0;
    while i < count
        invariant
            i <= count,
            out@ == initial + zeros(i as nat),
        decreases count - i,
    {
        out.push(0u8);
        proof {
            assert(zeros((i + 1) as nat) =~= zeros(i as nat).push(0u8));
        }
        i += 1;
    }
}

/// The first `rows` rows of `data`, each `row_len` bytes long, laid out
/// `pitch` bytes apart with zero padding after each row.
pub open spec fn padded_rows(data: Seq<u8>, row_len: nat, pitch: nat, rows: nat) -> Seq<u8>
    decreases rows,
{
    if rows == 0 {
        Seq::empty()
    } else {
        padded_rows(data, row_len, pitch, (rows - 1) as nat) + data.subrange(
            ((rows - 1) * row_len) as int,
            (rows * row_len) as int,
        ) + zeros((pitch - row_len) as nat)
    }
}

/// Length of [`padded_rows`]: `rows` pitches.
pub proof fn lemma_padded_rows_len(data: Seq<u8>, row_len: nat, pitch: nat, rows: nat)
    requires
        row_len <= pitch,
        rows * row_len <= data.len(),
    ensures
        padded_rows(data, row_len, pitch, rows).len() == rows * pitch,
    decreases rows,
{
    if rows == 0 {
        assert(rows * pitch == 0);
    } else {
        assert((rows - 1) * row_len <= rows * row_len) by (nonlinear_arith)
            requires
                rows > 0,
        ;
        lemma_padded_rows_len(data, row_len, pitch, (rows - 1) as nat);
        assert(rows * pitch == (rows - 1) * pitch + pitch) by (nonlinear_arith)
            requires
                rows > 0,
        ;
        assert(rows * row_len == (rows - 1) * row_len + row_len) by (nonlinear_arith)
            requires
                rows > 0,
        ;
        assert(data.subrange(((rows - 1) * row_len) as int, (rows * row_len) as int).len() == row_len);
        assert(zeros((pitch - row_len) as nat).len() == pitch - row_len);
    }
}

/// Copies `rows` rows of `row_len` bytes from `data` into a buffer whose rows
/// are `pitch` bytes apart, zero-filling the padding.
pub fn pad_rows(data: &[u8], row_len: u32, pitch: u32, rows: u32) -> (out: Vec<u8>)
    requires
        row_len <= pitch,
        rows * row_len <= data@.len(),
        rows * pitch <= usize::MAX,
    ensures
        out@ == padded_rows(data@, row_len as nat, pitch as nat, rows as nat),
        out@.len() == rows * pitch,
{
    let mut out: Vec<u8> = Vec::new();
    let data_len = data.len();
    let mut r: u32 = 0;
    while r < rows
        invariant
            data_len == data@.len(),
            r <= rows,
            row_len <= pitch,
            rows * row_len <= data@.len(),
            rows * pitch <= usize::MAX,
            out@ == padded_rows(data@, row_len as nat, pitch as nat, r as nat),
        decreases rows - r,
    {
        assert((r + 1) * row_len <= rows * row_len) by (nonlinear_arith)
            requires
                r < rows,
        ;
        assert((r + 1) * row_len == r * row_len + row_len) by (nonlinear_arith);
        assert(r * row_len <= (r + 1) * row_len) by (nonlinear_arith);
        assert(r * row_len + row_len <= data@.len());
        assert((r + 1) * pitch <= rows * pitch) by (nonlinear_arith)
            requires
                r < rows,
        ;
        let start = (r as usize) * (row_len as usize);
        let end = start + row_len as usize;
        append_range(&mut out, data, start, end);
        append_zeros(&mut out, (pitch - row_len) as usize);
        r += 1;
    }
    proof {
        lemma_padded_rows_len(data@, row_len as nat, pitch as nat, rows as nat);
    }
    out
}

/// Row layout of one texture upload.
#[derive(Debug, Clone, Copy, PartialEq, Eq, Structural)]
pub struct TextureUploadPlan {
    /// Width in texels (at least one).
    pub width: u32,
    /// Height in rows (at least one).
    pub height: u32,
    /// Bytes of one tightly packed row.
    pub bytes_per_row: u32,
    /// Rows of one image.
    pub rows_per_image: u32,
    /// Bytes the upload reads from the caller's data.
    pub expected_len: usize,
}

/// Bytes a texture upload of the given size needs.
pub open spec fn texture_bytes(format: ImageFormat, width: u32, height: u32) -> int {
    at_least_one(width) * at_least_one(height) * texel_bytes(format)
}

/// The fault of a texture upload, if any: a byte size that overflows, or too
/// little data.
pub open spec fn texture_upload_fault(format: ImageFormat, width: u32, height: u32, data_len: nat) -> Option<ErrorKind> {
    let expected = texture_bytes(format, width, height);
    if expected > u64::MAX || expected > usize::MAX {
        Some(ErrorKind::InvalidDescriptor("texture_size_overflow"))
    } else if data_len < expected {
        Some(ErrorKind::TextureUploadFailed("texture_data_too_small"))
    } else {
        None
    }
}

/// The plan of a valid texture upload.
pub open spec fn texture_upload_plan(format: ImageFormat, width: u32, height: u32) -> TextureUploadPlan {
    TextureUploadPlan {
        width: at_least_one(width),
        height: at_least_one(height),
        bytes_per_row: (at_least_one(width) * texel_bytes(format)) as u32,
        rows_per_image: at_least_one(height),
        expected_len: texture_bytes(format, width, height) as usize,
    }
}

/// Checks that `data` holds a whole texture of the given size and plans the
/// upload's row layout.
pub fn validate_texture_upload(format: ImageFormat, width: u32, height: u32, data: &[u8]) -> (r: Result<TextureUploadPlan, Error>)
    ensures
        match texture_upload_fault(format, width, height, data@.len()) {
            Some(k) => r == Err::<TextureUploadPlan, Error>(recoverable_error(k)),
            None => r == Ok::<TextureUploadPlan, Error>(texture_upload_plan(format, width, height)),
        },
{
    let width = if width == 0 { 1 } else { width };
    let height = if height == 0 { 1 } else { height };
    let bpp = bytes_per_pixel(format) as u64;
    let expected = match (width as u64).checked_mul(height as u64) {
        Some(area) => match area.checked_mul(bpp) {
            Some(value) => value,
            None => {
                return Err(Error::recoverable(ErrorKind::InvalidDescriptor("texture_size_overflow")));
            },
        },
        None => {
            assert(width * height * bpp >= width * height) by (nonlinear_arith)
                requires
                    bpp >= 1,
            ;
            return Err(Error::recoverable(ErrorKind::InvalidDescriptor("texture_size_overflow")));
        },
    };
    let expected_len = match usize::try_from(expected) {
        Ok(len) => len,
        Err(_) => {
            return Err(Error::recoverable(ErrorKind::InvalidDescriptor("texture_size_overflow")));
        },
    };
    if data.len() < expected_len {
        return Err(Error::recoverable(ErrorKind::TextureUploadFailed("texture_data_too_small")));
    }
    Ok(TextureUploadPlan {
        width,
        height,
        bytes_per_row: (width as u64 * bpp) as u32,
        rows_per_image: height,
        expected_len,
    })
}

/// Whether a texture upload with this row pitch goes through a staging
/// buffer: when the pitch is a multiple of the copy row alignment.
pub open spec fn uses_staging(bytes_per_row: u32) -> bool {
    bytes_per_row % 256 == 0
}

/// Decides whether an upload with this row pitch goes through a staging
/// buffer.
pub fn should_use_staging_upload(bytes_per_row: u32) -> (r: bool)
    ensures
        r == uses_staging(bytes_per_row),
{
    bytes_per_row.is_multiple_of(copy_bytes_per_row_alignment())
}

/// How the texels of one texture write reach the GPU.
#[derive(Debug)]
pub enum TextureWrite {
    /// Written through the queue, rows `plan.bytes_per_row` apart.
    Direct { plan: TextureUploadPlan, data: Vec<u8> },
    /// Copied from a staging buffer whose rows are `padded_bytes_per_row` apart.
    Staged { plan: TextureUploadPlan, padded_bytes_per_row: u32, data: Vec<u8> },
}

/// Plans a texture write: validates the size, takes the bytes the texture
/// needs, and lays them out for a direct queue write or for a staging copy.
pub fn write_texture_data(format: ImageFormat, width: u32, height: u32, data: &[u8]) -> (r: Result<TextureWrite, Error>)
    ensures
        match texture_upload_fault(format, width, height, data@.len()) {
            Some(k) => r matches Err(e) && e == recoverable_error(k),
            None => {
                let plan = texture_upload_plan(format, width, height);
                let src = data@.subrange(0, plan.expected_len as int);
                if uses_staging(plan.bytes_per_row) {
                    r matches Ok(TextureWrite::Staged { plan: p, padded_bytes_per_row, data: bytes })
                        && p == plan && padded_bytes_per_row == round_up(plan.bytes_per_row as int, 256)
                        && bytes@ == padded_rows(src, plan.bytes_per_row as nat, padded_bytes_per_row as nat, plan.height as nat)
                } else {
                    r matches Ok(TextureWrite::Direct { plan: p, data: bytes }) && p == plan && bytes@ == src
                }
            },
        },
{
    let upload = validate_texture_upload(format, width, height, data)?;
    let mut src: Vec<u8> = Vec::new();
    append_range(&mut src, data, 0, upload.expected_len);
    assert(src@ =~= data@.subrange(0, upload.expected_len as int));
    if should_use_staging_upload(upload.bytes_per_row) {
        let alignment = copy_bytes_per_row_alignment();
        proof {
            assert(upload.bytes_per_row as int % 256 == 0);
            assert(round_up(upload.bytes_per_row as int, 256) == upload.bytes_per_row) by (nonlinear_arith)
                requires
                    upload.bytes_per_row as int % 256 == 0,
                    upload.bytes_per_row >= 0,
            ;
        }
        let padded = align_to(upload.bytes_per_row, alignment);
        proof {
            let w = upload.width as int;
            let h = upload.height as int;
            let b = upload.bytes_per_row as int;
            let x: u64 = (upload.width as u64 * 4) as u64;
            assert((x as u32) as u64 <= x) by (bit_vector);
            assert(b <= w * 4);
            assert(h * b <= h * (w * 4)) by (nonlinear_arith)
                requires
                    b <= w * 4,
                    h >= 0,
            ;
            assert(h * (w * 4) == w * h * 4) by (nonlinear_arith);
        }
        let staged = pad_rows(src.as_slice(), upload.bytes_per_row, padded, upload.height);
        Ok(TextureWrite::Staged { plan: upload, padded_bytes_per_row: padded, data: staged })
    } else {
        Ok(TextureWrite::Direct { plan: upload, data: src })
    }
}

/// Size and initial contents of a GPU buffer created from caller data.
#[derive(Debug)]
pub struct BufferUpload {
    /// Allocated size: the data size, at least one, rounded up to the copy
    /// alignment.
    pub size: u64,
    /// Bytes written at creation: the data followed by zero padding up to
    /// `size`, or nothing for empty data.
    pub contents: Option<Vec<u8>>,
}

/// Plans a buffer holding `data`: its aligned size and the zero-padded bytes
/// written into it when it is created mapped.
pub fn create_buffer(data: &[u8]) -> (r: BufferUpload)
    requires
        data@.len() + 4 <= usize::MAX,
    ensures
        r.size == round_up(if data@.len() == 0 { 1 } else { data@.len() as int }, 4),
        data@.len() == 0 ==> r.contents is None,
        data@.len() > 0 ==> (r.contents matches Some(bytes) && bytes@ == data@ + zeros((r.size - data@.len()) as nat)),
{
    let size = data.len() as u64;
    let alignment = copy_buffer_alignment();
    proof {
        crate::numeric::lemma_round_up(if size == 0 { 1 } else { size as int }, 4);
    }
    let aligned_size = align_to_u64(if size == 0 { 1 } else { size }, alignment);
    if size == 0 {
        return BufferUpload { size: aligned_size, contents: None };
    }
    let mut staged: Vec<u8> = Vec::new();
    append_range(&mut staged, data, 0, data.len());
    append_zeros(&mut staged, (aligned_size - size) as usize);
    assert(data@.subrange(0, data@.len() as int) =~= data@);
    BufferUpload { size: aligned_size, contents: Some(staged) }
}

} // verus!
