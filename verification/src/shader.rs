//! Shader and pipeline descriptors: validation of materials and compute
//! pipelines, SPIR-V decoding, the face a render pipeline culls, and the
//! bind-group layout plan of compute pipelines.

use vstd::prelude::*;

use crate::descriptors::{ComputeBindingLayout, ComputePipelineDescriptor, CullMode, MaterialDescriptor};
use crate::error::{recoverable_error, Error, ErrorKind};
use crate::wgpu_api::{be_word, has_spirv_magic, le_word, make_spirv_words, spirv_magic};

verus! {

/// The triangle face a render pipeline discards.
#[derive(Debug, Clone, Copy, PartialEq, Eq, Structural)]
pub enum CulledFace {
    Front,
    Back,
}

/// The face culled under a material's cull mode: none when culling is
/// disabled, else the face the mode names.
pub open spec fn culled_face_of(mode: CullMode) -> Option<CulledFace> {
    match mode {
        CullMode::Disabled => None,
        CullMode::Front => Some(CulledFace::Front),
        CullMode::Back => Some(CulledFace::Back),
    }
}

/// The face a render pipeline of a material with `mode` culls.
pub fn culled_face(mode: CullMode) -> (r: Option<CulledFace>)
    ensures
        r == culled_face_of(mode),
{
    match mode {
        CullMode::Disabled => None,
        CullMode::Front => Some(CulledFace::Front),
        CullMode::Back => Some(CulledFace::Back),
    }
}

/// The first fault of a material descriptor: missing shader bytes, a missing
/// entry point, or shader bytes that are not whole 32-bit words.
pub open spec fn material_fault(material: MaterialDescriptor) -> Option<ErrorKind> {
    if material.vertex_shader_spv@.len() == 0 || material.fragment_shader_spv@.len() == 0 {
        Some(ErrorKind::InvalidDescriptor("material_shader_bytes_missing"))
    } else if material.vertex_entry@.len() == 0 || material.fragment_entry@.len() == 0 {
        Some(ErrorKind::InvalidDescriptor("material_shader_entry_missing"))
    } else if material.vertex_shader_spv@.len() % 4 != 0 || material.fragment_shader_spv@.len() % 4 != 0 {
        Some(ErrorKind::InvalidDescriptor("material_shader_bytes_not_word_aligned"))
    } else {
        None
    }
}

/// Checks that a material has both shaders, both entry points, and shader
/// bytes made of whole words.
pub fn validate_material_descriptor(material: &MaterialDescriptor) -> (r: Result<(), Error>)
    ensures
        match material_fault(*material) {
            Some(k) => r == Err::<(), Error>(recoverable_error(k)),
            None => r is Ok,
        },
{
    if material.vertex_shader_spv.len() == 0 || material.fragment_shader_spv.len() == 0 {
        return Err(
            Error::recoverable(ErrorKind::InvalidDescriptor("material_shader_bytes_missing")),
        );
    }
    if material.vertex_entry.as_str().is_empty() || material.fragment_entry.as_str().is_empty() {
        return Err(
            Error::recoverable(ErrorKind::InvalidDescriptor("material_shader_entry_missing")),
        );
    }
    if material.vertex_shader_spv.len() % 4 != 0 || material.fragment_shader_spv.len() % 4 != 0 {
        return Err(
            Error::recoverable(ErrorKind::InvalidDescriptor("material_shader_bytes_not_word_aligned")),
        );
    }
    Ok(())
}

/// The fault of shader bytes handed to a shader module: none, or not whole
/// words.
pub open spec fn spirv_fault(bytes: Seq<u8>) -> Option<ErrorKind> {
    if bytes.len() == 0 {
        Some(ErrorKind::InvalidDescriptor("material_shader_bytes_missing"))
    } else if bytes.len() % 4 != 0 {
        Some(ErrorKind::InvalidDescriptor("material_shader_bytes_not_word_aligned"))
    } else {
        None
    }
}

/// The words of a SPIR-V module, in the byte order that puts the magic number
/// first.
pub open spec fn spirv_words_of(bytes: Seq<u8>, words: Seq<u32>) -> bool {
    &&& words.len() == bytes.len() / 4
    &&& forall|i: int|
        0 <= i < words.len() ==> #[trigger] words[i] == if le_word(bytes, 0) == spirv_magic() {
            le_word(bytes, i)
        } else {
            be_word(bytes, i)
        }
}

/// Checks shader bytes and decodes them into the SPIR-V words of a shader
/// module. Bytes made of whole words must start with the SPIR-V magic number:
/// the decoder stops the program otherwise.
pub fn spirv_module_words(spirv_bytes: &[u8]) -> (r: Result<Vec<u32>, Error>)
    requires
        spirv_fault(spirv_bytes@) is None ==> has_spirv_magic(spirv_bytes@),
    ensures
        match spirv_fault(spirv_bytes@) {
            Some(k) => r == Err::<Vec<u32>, Error>(recoverable_error(k)),
            None => r matches Ok(words) && spirv_words_of(spirv_bytes@, words@),
        },
{
    if spirv_bytes.len() == 0 {
        return Err(
            Error::recoverable(ErrorKind::InvalidDescriptor("material_shader_bytes_missing")),
        );
    }
    if spirv_bytes.len() % 4 != 0 {
        return Err(
            Error::recoverable(ErrorKind::InvalidDescriptor("material_shader_bytes_not_word_aligned")),
        );
    }
    Ok(make_spirv_words(spirv_bytes))
}

/// The bindings of `bindings` that belong to group `set`, in order.
pub open spec fn bindings_of_set(bindings: Seq<ComputeBindingLayout>, set: u32) -> Seq<ComputeBindingLayout> {
    bindings.filter(|b: ComputeBindingLayout| b.set == set)
}

/// The largest group index among `bindings` (zero when there are none).
pub open spec fn max_set(bindings: Seq<ComputeBindingLayout>) -> u32
    decreases bindings.len(),
{
    if bindings.len() == 0 {
        0
    } else {
        let rest = max_set(bindings.drop_last());
        if bindings.last().set > rest {
            bindings.last().set
        } else {
            rest
        }
    }
}

/// Plans the bind-group layouts of a compute pipeline: one group for every
/// index from zero to the largest used, each holding the bindings declared
/// for it in declaration order; no group at all when nothing is bound.
pub fn build_bind_group_layouts(bindings: &Vec<ComputeBindingLayout>) -> (groups: Vec<Vec<ComputeBindingLayout>>)
    ensures
        bindings@.len() == 0 ==> groups@.len() == 0,
        bindings@.len() > 0 ==> groups@.len() == max_set(bindings@) + 1,
        forall|i: int| 0 <= i < bindings@.len() ==> #[trigger] bindings@[i].set < groups@.len(),
        bindings@.len() > 0 ==> exists|i: int| 0 <= i < bindings@.len() && #[trigger] bindings@[i].set + 1 == groups@.len(),
        forall|s: int| 0 <= s < groups@.len() ==> #[trigger] groups@[s]@ == bindings_of_set(bindings@, s as u32),
{
    proof {
        crate::laws::law_max_set_is_the_largest_group(bindings@);
    }
    let mut groups: Vec<Vec<ComputeBindingLayout>> = Vec::new();
    let n = bindings.len();
    if n == 0 {
        return groups;
    }
    let mut top: u32 = 0;
    let mut i: usize = 0;
    while i < n
        invariant
            n == bindings@.len(),
            i <= n,
            top == max_set(bindings@.take(i as int)),
        decreases n - i,
    {
        proof {
            assert(bindings@.take(i + 1).drop_last() =~= bindings@.take(i as int));
        }
        if bindings[i].set > top {
            top = bindings[i].set;
        }
        i += 1;
    }
    assert(bindings@.take(n as int) =~= bindings@);
    let mut set: u64 = 0;
    while set <= top as u64
        invariant
            n == bindings@.len(),
            top == max_set(bindings@),
            set <= top as u64 + 1,
            groups@.len() == set,
            forall|s: int| 0 <= s < groups@.len() ==> #[trigger] groups@[s]@ == bindings_of_set(bindings@, s as u32),
        decreases top as u64 + 1 - set,
    {
        let mut group: Vec<ComputeBindingLayout> = Vec::new();
        let mut j: usize = 0;
        while j < n
            invariant
                n == bindings@.len(),
                j <= n,
                set <= u32::MAX,
                group@ == bindings_of_set(bindings@.take(j as int), set as u32),
            decreases n - j,
        {
            proof {
                reveal_with_fuel(Seq::filter, 1);
                assert(bindings@.take(j + 1).drop_last() =~= bindings@.take(j as int));
            }
            if bindings[j].set as u64 == set {
                group.push(bindings[j]);
            }
            j += 1;
        }
        assert(bindings@.take(n as int) =~= bindings@);
        groups.push(group);
        set += 1;
    }
    groups
}

/// What a compute pipeline is built from once its descriptor is accepted.
#[derive(Debug)]
pub struct ComputePipelinePlan {
    /// SPIR-V words of the compute shader.
    pub shader_words: Vec<u32>,
    /// Bindings of each bind group, by group index.
    pub bind_group_layouts: Vec<Vec<ComputeBindingLayout>>,
    /// The descriptor the pipeline was made from.
    pub descriptor: ComputePipelineDescriptor,
}

/// The first fault of a compute pipeline descriptor.
pub open spec fn compute_pipeline_fault(descriptor: ComputePipelineDescriptor) -> Option<ErrorKind> {
    if descriptor.shader_spv@.len() == 0 {
        Some(ErrorKind::InvalidDescriptor("compute_shader_bytes_missing"))
    } else if descriptor.shader_spv@.len() % 4 != 0 {
        Some(ErrorKind::InvalidDescriptor("compute_shader_bytes_not_word_aligned"))
    } else if descriptor.entry_point@.len() == 0 {
        Some(ErrorKind::InvalidDescriptor("compute_shader_entry_missing"))
    } else {
        None
    }
}

/// Validates a compute pipeline descriptor and plans the pipeline: its shader
/// words and its bind-group layouts. Accepted shader bytes must start with the
/// SPIR-V magic number: the decoder stops the program otherwise.
pub fn create_compute_pipeline(descriptor: &ComputePipelineDescriptor) -> (r: Result<ComputePipelinePlan, Error>)
    requires
        compute_pipeline_fault(*descriptor) is None ==> has_spirv_magic(descriptor.shader_spv@),
    ensures
        match compute_pipeline_fault(*descriptor) {
            Some(k) => r matches Err(e) && e == recoverable_error(k),
            None => r matches Ok(plan) && plan.descriptor@ == descriptor@
                && spirv_words_of(descriptor.shader_spv@, plan.shader_words@)
                && (descriptor.bindings@.len() == 0 ==> plan.bind_group_layouts@.len() == 0)
                && (descriptor.bindings@.len() > 0 ==> plan.bind_group_layouts@.len() == max_set(descriptor.bindings@) + 1)
                && (forall|i: int| 0 <= i < descriptor.bindings@.len()
                    ==> #[trigger] descriptor.bindings@[i].set < plan.bind_group_layouts@.len())
                && (descriptor.bindings@.len() > 0 ==> exists|i: int| 0 <= i < descriptor.bindings@.len()
                    && #[trigger] descriptor.bindings@[i].set + 1 == plan.bind_group_layouts@.len())
                && forall|s: int| 0 <= s < plan.bind_group_layouts@.len()
                    ==> #[trigger] plan.bind_group_layouts@[s]@ == bindings_of_set(descriptor.bindings@, s as u32),
        },
{
    if descriptor.shader_spv.len() == 0 {
        return Err(
            Error::recoverable(ErrorKind::InvalidDescriptor("compute_shader_bytes_missing")),
        );
    }
    if descriptor.shader_spv.len() % 4 != 0 {
        return Err(
            Error::recoverable(ErrorKind::InvalidDescriptor("compute_shader_bytes_not_word_aligned")),
        );
    }
    if descriptor.entry_point.as_str().is_empty() {
        return Err(
            Error::recoverable(ErrorKind::InvalidDescriptor("compute_shader_entry_missing")),
        );
    }
    let bind_group_layouts = build_bind_group_layouts(&descriptor.bindings);
    let shader_words = make_spirv_words(descriptor.shader_spv.as_slice());
    Ok(ComputePipelinePlan { shader_words, bind_group_layouts, descriptor: descriptor.copy() })
}

} // verus!
