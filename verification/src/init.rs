//! Sizes fixed at bridge creation: uniform-buffer layout constants, the
//! per-object stride, and the initial state of a bridge.

use vstd::prelude::*;

use crate::numeric::{align_to_u64, round_up};
use crate::registry::BridgeState;

verus! {

/// Bytes of the global uniform block: the view and projection matrices.
pub const GLOBAL_UBO_SIZE: u64 = 128;

/// Bytes of one object's uniform block: its model matrix.
pub const OBJECT_MATRIX_SIZE: u64 = 64;

/// Number of objects the per-object uniform buffer holds at first.
pub const INITIAL_OBJECT_CAPACITY: u32 = 64;

/// Rounds a uniform block size up to the device's uniform offset alignment.
pub fn align_uniform_size(size: u64, alignment: u32) -> (r: u32)
    requires
        round_up(size as int, alignment as int) <= u32::MAX,
    ensures
        r == round_up(size as int, alignment as int),
{
    align_to_u64(size, alignment as u64) as u32
}

/// The state of a new bridge on a device with the given uniform offset
/// alignment: per-object blocks `OBJECT_MATRIX_SIZE` rounded up to it apart,
/// room for `INITIAL_OBJECT_CAPACITY` objects.
pub fn create_bridge_state(min_uniform_buffer_offset_alignment: u32) -> (r: BridgeState)
    requires
        round_up(OBJECT_MATRIX_SIZE as int, min_uniform_buffer_offset_alignment as int) <= u32::MAX,
    ensures
        r@ == BridgeState::new_view(
            round_up(OBJECT_MATRIX_SIZE as int, min_uniform_buffer_offset_alignment as int) as u32,
            INITIAL_OBJECT_CAPACITY,
        ),
{
    let stride = align_uniform_size(OBJECT_MATRIX_SIZE, min_uniform_buffer_offset_alignment);
    BridgeState::new(stride, INITIAL_OBJECT_CAPACITY)
}

/// Byte size of the per-object uniform buffer.
pub fn object_buffer_size(state: &BridgeState) -> (r: u64)
    ensures
        r == state.object_aligned_stride * state.object_buffer_capacity,
{
    assert(state.object_aligned_stride as u64 * state.object_buffer_capacity as u64 <= u64::MAX) by (nonlinear_arith)
        requires
            state.object_aligned_stride <= u32::MAX,
            state.object_buffer_capacity <= u32::MAX,
    ;
    state.object_aligned_stride as u64 * state.object_buffer_capacity as u64
}

/// Known limitations of this backend, for reporting to users.
pub fn unsupported_feature_reporting() -> (r: Vec<&'static str>)
    ensures
        r@ == seq![
            "VertexStepMode is not modeled by rotex_types and is treated as vertex-rate input.",
            "VertexFormat support is limited to the rotex_types subset (Float32/Float32x2/Float32x3/Float32x4/Uint32).",
            "TextureFormat::Rgba8UnormSrgb is unavailable; textures use TextureFormat::Rgba8Unorm.",
            "Advanced Vulkan SPIR-V operations (for example hardware ray tracing or subgroup operations) are unsupported by WGPU WebAPI and may panic/fail during make_spirv translation.",
        ],
{
    let mut r: Vec<&'static str> = Vec::new();
    r.push("VertexStepMode is not modeled by rotex_types and is treated as vertex-rate input.");
    r.push("VertexFormat support is limited to the rotex_types subset (Float32/Float32x2/Float32x3/Float32x4/Uint32).");
    r.push("TextureFormat::Rgba8UnormSrgb is unavailable; textures use TextureFormat::Rgba8Unorm.");
    r.push("Advanced Vulkan SPIR-V operations (for example hardware ray tracing or subgroup operations) are unsupported by WGPU WebAPI and may panic/fail during make_spirv translation.");
    assert(r@ =~= seq![
        "VertexStepMode is not modeled by rotex_types and is treated as vertex-rate input.",
        "VertexFormat support is limited to the rotex_types subset (Float32/Float32x2/Float32x3/Float32x4/Uint32).",
        "TextureFormat::Rgba8UnormSrgb is unavailable; textures use TextureFormat::Rgba8Unorm.",
        "Advanced Vulkan SPIR-V operations (for example hardware ray tracing or subgroup operations) are unsupported by WGPU WebAPI and may panic/fail during make_spirv translation.",
    ]);
    r
}

} // verus!
