//! The parts of wgpu that the verified logic calls: copy alignments,
//! sRGB classification of texture formats, and SPIR-V word decoding.

use vstd::prelude::*;
use vstd::bytes::spec_u32_from_le_bytes;

verus! {

/// wgpu's texel format, carried through surface-format selection.
#[verifier::external_type_specification]
#[verifier::external_body]
pub struct ExTextureFormat(wgpu::TextureFormat);

/// `wgpu::COPY_BUFFER_ALIGNMENT`: buffer sizes and copy offsets are multiples
/// of this; wgpu-types defines it as 4.
#[verifier::external_body]
pub(crate) fn copy_buffer_alignment() -> (r: u64)
    ensures
        r == 4,
{
    wgpu::COPY_BUFFER_ALIGNMENT
}

/// `wgpu::COPY_BYTES_PER_ROW_ALIGNMENT`: the row pitch of buffer-to-texture
/// copies is a multiple of this; wgpu-types defines it as 256.
#[verifier::external_body]
pub(crate) fn copy_bytes_per_row_alignment() -> (r: u32)
    ensures
        r == 256,
{
    wgpu::COPY_BYTES_PER_ROW_ALIGNMENT
}

/// Whether wgpu classes `format` as sRGB-encoded: the answer of
/// `wgpu::TextureFormat::is_srgb`, which depends on the format alone.
pub uninterp spec fn srgb_format(format: wgpu::TextureFormat) -> bool;

/// `wgpu::TextureFormat::is_srgb`: whether the format is an sRGB-encoded
/// one. The contract names the answer [`srgb_format`] of the format; which
/// formats are sRGB is the table in wgpu-types and is not spelled out here.
#[verifier::external_body]
pub(crate) fn texture_format_is_srgb(format: &wgpu::TextureFormat) -> (r: bool)
    ensures
        r == srgb_format(*format),
{
    format.is_srgb()
}

/// The SPIR-V magic number.
pub open spec fn spirv_magic() -> u32 {
    0x0723_0203
}

/// Word `i` of `bytes`, read little-endian.
pub open spec fn le_word(bytes: Seq<u8>, i: int) -> u32 {
    spec_u32_from_le_bytes(bytes.subrange(4 * i, 4 * i + 4))
}

/// Word `i` of `bytes`, read big-endian.
pub open spec fn be_word(bytes: Seq<u8>, i: int) -> u32 {
    spec_u32_from_le_bytes(seq![bytes[4 * i + 3], bytes[4 * i + 2], bytes[4 * i + 1], bytes[4 * i]])
}

/// Whether `bytes` starts with the SPIR-V magic number in either byte order.
pub open spec fn has_spirv_magic(bytes: Seq<u8>) -> bool {
    bytes.len() >= 4 && (le_word(bytes, 0) == spirv_magic() || be_word(bytes, 0) == spirv_magic())
}

/// `wgpu::util::make_spirv_raw`: decodes SPIR-V bytes into words, in the byte
/// order that makes the first word the magic number. Its source panics on an
/// empty slice, a length that is not a multiple of four, or a missing magic
/// number; the precondition leaves those out.
#[verifier::external_body]
pub(crate) fn make_spirv_words(bytes: &[u8]) -> (words: Vec<u32>)
    requires
        bytes@.len() > 0,
        bytes@.len() % 4 == 0,
        has_spirv_magic(bytes@),
    ensures
        words@.len() == bytes@.len() / 4,
        forall|i: int|
            0 <= i < words@.len() ==> #[trigger] words@[i] == if le_word(bytes@, 0) == spirv_magic() {
                le_word(bytes@, i)
            } else {
                be_word(bytes@, i)
            },
{
    wgpu::util::make_spirv_raw(bytes).into_owned()
}

} // verus!
