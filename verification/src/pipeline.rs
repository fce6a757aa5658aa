//! The render pipeline of a cached key: the checks made before it is built
//! and the shader stages, vertex layout, culling and depth state it has.

use vstd::prelude::*;

use crate::descriptors::{MeshId, VertexAttribute};
use crate::error::{fatal_error, recoverable_error, surface_not_attached_error, Error, ErrorKind};
use crate::registry::{BridgeState, BridgeView, MaterialPipelineKey};
use crate::shader::{culled_face, culled_face_of, spirv_fault, spirv_module_words, spirv_words_of, CulledFace};
use crate::wgpu_api::{be_word, has_spirv_magic, le_word, spirv_magic};

verus! {

broadcast use {
    vstd::std_specs::hash::group_hash_axioms,
};

/// The SPIR-V words of a module made of `bytes`, in the byte order that puts
/// the magic number first.
pub open spec fn spirv_module_of(bytes: Seq<u8>) -> Seq<u32> {
    Seq::new(
        bytes.len() / 4,
        |i: int| if le_word(bytes, 0) == spirv_magic() {
            le_word(bytes, i)
        } else {
            be_word(bytes, i)
        },
    )
}

/// Everything a render pipeline is built from.
#[derive(Debug)]
pub struct RenderPipelinePlan {
    /// Cache key the pipeline is built for.
    pub key: MaterialPipelineKey,
    /// Mesh whose vertex layout the pipeline reads.
    pub mesh: MeshId,
    /// SPIR-V words of the vertex stage.
    pub vertex_words: Vec<u32>,
    /// SPIR-V words of the fragment stage.
    pub fragment_words: Vec<u32>,
    /// Entry point of the vertex stage.
    pub vertex_entry: String,
    /// Entry point of the fragment stage.
    pub fragment_entry: String,
    /// Bytes between consecutive vertices.
    pub array_stride: u64,
    /// Attributes read from each vertex.
    pub attributes: Vec<VertexAttribute>,
    /// Face discarded by rasterisation, if any.
    pub culled_face: Option<CulledFace>,
    /// Whether the pipeline tests and writes depth.
    pub depth_test: bool,
}

/// Abstract contents of a [`RenderPipelinePlan`].
pub struct RenderPipelinePlanView {
    pub key: MaterialPipelineKey,
    pub mesh: MeshId,
    pub vertex_words: Seq<u32>,
    pub fragment_words: Seq<u32>,
    pub vertex_entry: Seq<char>,
    pub fragment_entry: Seq<char>,
    pub array_stride: u64,
    pub attributes: Seq<VertexAttribute>,
    pub culled_face: Option<CulledFace>,
    pub depth_test: bool,
}

impl View for RenderPipelinePlan {
    type V = RenderPipelinePlanView;

    open spec fn view(&self) -> RenderPipelinePlanView {
        RenderPipelinePlanView {
            key: self.key,
            mesh: self.mesh,
            vertex_words: self.vertex_words@,
            fragment_words: self.fragment_words@,
            vertex_entry: self.vertex_entry@,
            fragment_entry: self.fragment_entry@,
            array_stride: self.array_stride,
            attributes: self.attributes@,
            culled_face: self.culled_face,
            depth_test: self.depth_test,
        }
    }
}

/// The render pipeline of `key` drawing `mesh`. It needs a configured
/// swapchain, then the material, then the mesh, then vertex and fragment
/// shader bytes made of whole words, in that order. The pipeline runs the
/// material's stages at their entry points over the mesh's vertex layout,
/// culls the face the material's cull mode names, and tests depth exactly
/// when the key enables it.
pub open spec fn render_pipeline_plan_of(s: BridgeView, key: MaterialPipelineKey, mesh: MeshId) -> Result<RenderPipelinePlanView, Error> {
    if s.swapchain is None {
        Err(fatal_error(ErrorKind::SurfaceNotAttached))
    } else if !s.materials.contains_key(key.material_id.0) {
        Err(recoverable_error(ErrorKind::ResourceNotFound("material")))
    } else if !s.meshes.contains_key(mesh.0) {
        Err(recoverable_error(ErrorKind::ResourceNotFound("mesh")))
    } else {
        let m = s.materials[key.material_id.0];
        let record = s.meshes[mesh.0];
        match spirv_fault(m.vertex_shader_spv@) {
            Some(k) => Err(recoverable_error(k)),
            None => match spirv_fault(m.fragment_shader_spv@) {
                Some(k) => Err(recoverable_error(k)),
                None => Ok(
                    RenderPipelinePlanView {
                        key,
                        mesh,
                        vertex_words: spirv_module_of(m.vertex_shader_spv@),
                        fragment_words: spirv_module_of(m.fragment_shader_spv@),
                        vertex_entry: m.vertex_entry@,
                        fragment_entry: m.fragment_entry@,
                        array_stride: record.array_stride,
                        attributes: record.attributes,
                        culled_face: culled_face_of(m.cull_mode),
                        depth_test: key.depth_enabled,
                    },
                ),
            },
        }
    }
}

/// Whether the shader bytes that planning `key` reaches decode: each stage
/// whose bytes are whole words starts with the SPIR-V magic number. The
/// decoder stops the program otherwise.
pub open spec fn pipeline_shaders_decodable(s: BridgeView, key: MaterialPipelineKey, mesh: MeshId) -> bool {
    s.swapchain is Some && s.materials.contains_key(key.material_id.0) && s.meshes.contains_key(mesh.0) ==> {
        let m = s.materials[key.material_id.0];
        &&& spirv_fault(m.vertex_shader_spv@) is None ==> has_spirv_magic(m.vertex_shader_spv@)
        &&& spirv_fault(m.vertex_shader_spv@) is None && spirv_fault(m.fragment_shader_spv@) is None
            ==> has_spirv_magic(m.fragment_shader_spv@)
    }
}

/// Words decoded by [`spirv_module_words`] are the module's words.
proof fn lemma_module_words(bytes: Seq<u8>, words: Seq<u32>)
    requires
        spirv_words_of(bytes, words),
    ensures
        words == spirv_module_of(bytes),
{
    assert(words =~= spirv_module_of(bytes));
}

/// A copy of a vertex attribute list.
fn copy_attributes(attributes: &Vec<VertexAttribute>) -> (r: Vec<VertexAttribute>)
    ensures
        r@ == attributes@,
{
    let mut r: Vec<VertexAttribute> = Vec::with_capacity(attributes.len());
    let mut i: usize = 0;
    while i < attributes.len()
        invariant
            i <= attributes@.len(),
            r@ == attributes@.take(i as int),
        decreases attributes@.len() - i,
    {
        r.push(attributes[i]);
        i += 1;
        assert(r@ =~= attributes@.take(i as int));
    }
    assert(attributes@.take(i as int) =~= attributes@);
    r
}

/// Plans the render pipeline of `key` drawing `mesh` (see
/// [`render_pipeline_plan_of`]).
pub fn plan_render_pipeline(state: &BridgeState, key: MaterialPipelineKey, mesh: MeshId) -> (r: Result<RenderPipelinePlan, Error>)
    requires
        pipeline_shaders_decodable(state@, key, mesh),
    ensures
        match render_pipeline_plan_of(state@, key, mesh) {
            Ok(v) => r matches Ok(plan) && plan@ == v,
            Err(e) => r matches Err(e2) && e2 == e,
        },
{
    if state.swapchain.is_none() {
        return Err(surface_not_attached_error());
    }
    let material = match state.resources.materials.get(&key.material_id.0) {
        Some(m) => m,
        None => {
            return Err(Error::recoverable(ErrorKind::ResourceNotFound("material")));
        },
    };
    let record = match state.resources.meshes.get(&mesh.0) {
        Some(m) => m,
        None => {
            return Err(Error::recoverable(ErrorKind::ResourceNotFound("mesh")));
        },
    };
    proof {
        assert(state@.meshes[mesh.0] == record@);
    }
    let vertex_words = spirv_module_words(material.vertex_shader_spv.as_slice())?;
    let fragment_words = spirv_module_words(material.fragment_shader_spv.as_slice())?;
    proof {
        lemma_module_words(material.vertex_shader_spv@, vertex_words@);
        lemma_module_words(material.fragment_shader_spv@, fragment_words@);
    }
    Ok(
        RenderPipelinePlan {
            key,
            mesh,
            vertex_words,
            fragment_words,
            vertex_entry: material.vertex_entry.clone(),
            fragment_entry: material.fragment_entry.clone(),
            array_stride: record.vertex_layout.array_stride,
            attributes: copy_attributes(&record.vertex_layout.attributes),
            culled_face: culled_face(material.cull_mode),
            depth_test: key.depth_enabled,
        },
    )
}

} // verus!
