//! Plain descriptors that callers hand to the bridge: resources, surfaces,
//! devices, passes and compute work. Floating-point payloads (matrices,
//! clear colors) are carried next to these by the host and never reach the
//! verified logic.

use vstd::prelude::*;

verus! {

/// Identifier of a mesh resource.
#[derive(Debug, Clone, Copy, PartialEq, Eq, Hash, Structural)]
pub struct MeshId(pub u64);

/// Identifier of a material resource.
#[derive(Debug, Clone, Copy, PartialEq, Eq, Hash, Structural)]
pub struct MaterialId(pub u64);

/// Identifier of a texture resource.
#[derive(Debug, Clone, Copy, PartialEq, Eq, Hash, Structural)]
pub struct TextureId(pub u64);

/// Identifier of a storage buffer resource.
#[derive(Debug, Clone, Copy, PartialEq, Eq, Hash, Structural)]
pub struct BufferId(pub u64);

/// Identifier of a compute pipeline resource.
#[derive(Debug, Clone, Copy, PartialEq, Eq, Hash, Structural)]
pub struct ComputePipelineId(pub u64);

/// Element format of a vertex attribute.
#[derive(Debug, Clone, Copy, PartialEq, Eq, Structural)]
pub enum VertexFormat {
    Float32,
    Float32x2,
    Float32x3,
    Float32x4,
    Uint32,
}

/// Byte size of one element of `format`.
pub open spec fn vertex_format_bytes(format: VertexFormat) -> u64 {
    match format {
        VertexFormat::Float32 => 4,
        VertexFormat::Float32x2 => 8,
        VertexFormat::Float32x3 => 12,
        VertexFormat::Float32x4 => 16,
        VertexFormat::Uint32 => 4,
    }
}

impl VertexFormat {
    /// Returns the byte size of one element of this format.
    pub fn size(&self) -> (r: u64)
        ensures
            r == vertex_format_bytes(*self),
    {
        match self {
            VertexFormat::Float32 => 4,
            VertexFormat::Float32x2 => 8,
            VertexFormat::Float32x3 => 12,
            VertexFormat::Float32x4 => 16,
            VertexFormat::Uint32 => 4,
        }
    }
}

/// Element format of an index buffer.
#[derive(Debug, Clone, Copy, PartialEq, Eq, Structural)]
pub enum IndexFormat {
    Uint16,
    Uint32,
}

/// Texel format of a texture.
#[derive(Debug, Clone, Copy, PartialEq, Eq, Structural)]
pub enum ImageFormat {
    Rgba8Unorm,
}

/// Face culling mode of a material.
#[derive(Debug, Clone, Copy, PartialEq, Eq, Structural)]
pub enum CullMode {
    Disabled,
    Front,
    Back,
}

/// One attribute of a vertex buffer layout.
#[derive(Debug, Clone, Copy, PartialEq, Eq, Structural)]
pub struct VertexAttribute {
    /// Element format.
    pub format: VertexFormat,
    /// Byte offset inside one vertex.
    pub offset: u64,
    /// Shader location the attribute binds to.
    pub location: u32,
}

/// Layout of one interleaved vertex buffer.
#[derive(Debug, Clone)]
pub struct VertexBufferLayout {
    /// Bytes between consecutive vertices.
    pub array_stride: u64,
    /// Attributes read from each vertex.
    pub attributes: Vec<VertexAttribute>,
}

/// Geometry to upload as a mesh.
#[derive(Debug, Clone)]
pub struct MeshDescriptor {
    /// Raw vertex bytes.
    pub vertex_data: Vec<u8>,
    /// Layout of `vertex_data`.
    pub vertex_layout: VertexBufferLayout,
    /// Raw index bytes.
    pub index_data: Vec<u8>,
    /// Element format of `index_data`.
    pub index_format: IndexFormat,
    /// Number of indices to draw.
    pub index_count: u32,
}

/// Shaders and fixed-function state of a material.
#[derive(Debug, Clone)]
pub struct MaterialDescriptor {
    /// SPIR-V of the vertex stage.
    pub vertex_shader_spv: Vec<u8>,
    /// SPIR-V of the fragment stage.
    pub fragment_shader_spv: Vec<u8>,
    /// Entry point of the vertex stage.
    pub vertex_entry: String,
    /// Entry point of the fragment stage.
    pub fragment_entry: String,
    /// Whether draws with this material test and write depth.
    pub enable_depth: bool,
    /// Face culling mode.
    pub cull_mode: CullMode,
    /// Texture sampled by the material, if any.
    pub texture: Option<TextureId>,
}

/// Pixels to upload as a texture.
#[derive(Debug, Clone)]
pub struct TextureDescriptor {
    /// Width in pixels.
    pub width: u32,
    /// Height in pixels.
    pub height: u32,
    /// Texel format.
    pub format: ImageFormat,
    /// Tightly packed texel bytes, row by row.
    pub data: Vec<u8>,
}

/// One resource to create.
#[derive(Debug, Clone)]
pub enum ResourceCreateDescriptor {
    Mesh(MeshDescriptor),
    Material(MaterialDescriptor),
    Texture(TextureDescriptor),
}

/// A batch of resources to create, in order.
#[derive(Debug, Clone)]
pub struct ResourceBatchCreate {
    /// Resources to create.
    pub resources: Vec<ResourceCreateDescriptor>,
}

/// Handle of a created resource.
#[derive(Debug, Clone, Copy, PartialEq, Eq, Structural)]
pub enum ResourceHandle {
    Mesh(MeshId),
    Material(MaterialId),
    Texture(TextureId),
}

/// Handles of a batch of created resources, in the order of the batch.
#[derive(Debug, Clone)]
pub struct CreatedResources {
    /// One handle per created resource.
    pub handles: Vec<ResourceHandle>,
}

/// One resource update.
#[derive(Debug, Clone)]
pub enum ResourceUpdateDescriptor {
    /// Replaces the geometry stored under `id`.
    Mesh {
        id: MeshId,
        vertex_data: Vec<u8>,
        vertex_layout: VertexBufferLayout,
        index_data: Vec<u8>,
        index_format: IndexFormat,
        index_count: u32,
    },
    /// Changes the depth flag and/or the texture binding of a material.
    Material { id: MaterialId, enable_depth: Option<bool>, texture: Option<Option<TextureId>> },
    /// Rewrites the texels of a texture.
    Texture { id: TextureId, data: Vec<u8> },
}

/// A batch of resource updates, applied in order.
#[derive(Debug, Clone)]
pub struct ResourceBatchUpdate {
    /// Updates to apply.
    pub updates: Vec<ResourceUpdateDescriptor>,
}

/// Width and height of a surface.
#[derive(Debug, Clone, Copy, PartialEq, Eq, Structural)]
pub struct Extent2D {
    pub width: u32,
    pub height: u32,
}

/// `value` raised to at least one.
pub open spec fn at_least_one(value: u32) -> u32 {
    if value == 0 { 1 } else { value }
}

impl Extent2D {
    /// This extent with each dimension raised to at least one.
    pub open spec fn clamped_spec(&self) -> Extent2D {
        Extent2D { width: at_least_one(self.width), height: at_least_one(self.height) }
    }

    /// Returns this extent with each dimension raised to at least one.
    pub fn clamped(&self) -> (r: Extent2D)
        ensures
            r == self.clamped_spec(),
    {
        Extent2D {
            width: if self.width == 0 { 1 } else { self.width },
            height: if self.height == 0 { 1 } else { self.height },
        }
    }
}

/// Instance-creation requirements.
#[derive(Debug, Clone)]
pub struct InstanceDescriptor {
    /// Instance extensions that must be enabled.
    pub required_instance_extensions: Vec<String>,
}

/// Optional device capabilities.
#[derive(Debug, Clone, Copy, PartialEq, Eq, Structural)]
pub struct DeviceFeatures {
    pub sampler_anisotropy: bool,
    pub wide_lines: bool,
    pub fill_mode_non_solid: bool,
}

/// Kind of work a queue accepts.
#[derive(Debug, Clone, Copy, PartialEq, Eq, Structural)]
pub enum QueueCategory {
    Graphics,
    Compute,
    Transfer,
}

/// Request for a number of queues of one category.
#[derive(Debug, Clone, Copy, PartialEq, Eq, Structural)]
pub struct QueueRequest {
    pub category: QueueCategory,
    pub count: u32,
}

/// Device-creation requirements.
#[derive(Debug, Clone)]
pub struct DeviceDescriptor {
    /// Whether presentation to a surface is needed.
    pub enable_swapchain: bool,
    /// Capabilities the device must offer.
    pub required_features: DeviceFeatures,
    /// Queues to create.
    pub queues: Vec<QueueRequest>,
}

/// How a pass starts its color attachment.
#[derive(Debug, Clone, Copy, PartialEq, Eq, Structural)]
pub enum ColorAttachmentLoad {
    Clear,
    Load,
}

/// How a pass starts its depth attachment.
#[derive(Debug, Clone, Copy, PartialEq, Eq, Structural)]
pub enum DepthAttachmentLoad {
    Clear,
    Load,
    Unused,
}

/// Color target of a graphics pass.
#[derive(Debug, Clone, Copy, PartialEq, Eq, Structural)]
pub enum PassColorTarget {
    Swapchain,
    Texture(TextureId),
}

/// A graphics pass over the scene's instances.
#[derive(Debug, Clone)]
pub struct PassDescriptor {
    /// Where the pass draws.
    pub color_target: PassColorTarget,
    /// How the color attachment starts.
    pub color_load: ColorAttachmentLoad,
    /// How the depth attachment starts.
    pub depth_load: DepthAttachmentLoad,
    /// Scene instances to draw; empty means all of them.
    pub instance_indices: Vec<usize>,
}

impl PassDescriptor {
    /// Whether the pass asks for a depth attachment of its own.
    pub open spec fn spec_uses_depth_attachment(&self) -> bool {
        self.depth_load != DepthAttachmentLoad::Unused
    }

    /// Whether the pass asks for a depth attachment of its own.
    pub fn uses_depth_attachment(&self) -> (r: bool)
        ensures
            r == self.spec_uses_depth_attachment(),
    {
        match self.depth_load {
            DepthAttachmentLoad::Unused => false,
            _ => true,
        }
    }
}

/// A drawable instance of the scene: which mesh with which material.
#[derive(Debug, Clone, Copy, PartialEq, Eq, Structural)]
pub struct DrawInstance {
    pub mesh: MeshId,
    pub material: MaterialId,
}

/// Use of a storage buffer by a compute dispatch.
#[derive(Debug, Clone, Copy, PartialEq, Eq, Structural)]
pub struct BufferUsageIntent {
    /// Bind group index.
    pub set: u32,
    /// Binding inside the group.
    pub binding: u32,
    /// Buffer to bind.
    pub buffer: BufferId,
    /// Byte offset of the bound range.
    pub offset: u64,
    /// Byte size of the bound range; zero means the whole buffer.
    pub size: u64,
}

/// A compute dispatch.
#[derive(Debug, Clone)]
pub struct ComputePassDescriptor {
    /// Pipeline to run.
    pub pipeline: ComputePipelineId,
    /// Buffers the dispatch binds.
    pub buffer_intents: Vec<BufferUsageIntent>,
    /// Workgroup counts in x, y and z.
    pub workgroup_count: [u32; 3],
}

/// A binding declared by a compute pipeline.
#[derive(Debug, Clone, Copy, PartialEq, Eq, Structural)]
pub struct ComputeBindingLayout {
    pub set: u32,
    pub binding: u32,
    pub readonly: bool,
}

/// Shader and bindings of a compute pipeline.
#[derive(Debug, Clone)]
pub struct ComputePipelineDescriptor {
    /// SPIR-V of the compute stage.
    pub shader_spv: Vec<u8>,
    /// Entry point of the compute stage.
    pub entry_point: String,
    /// Storage-buffer bindings of the pipeline.
    pub bindings: Vec<ComputeBindingLayout>,
}

/// Abstract contents of a [`ComputePipelineDescriptor`].
pub struct ComputePipelineDescriptorView {
    pub shader_spv: Seq<u8>,
    pub entry_point: Seq<char>,
    pub bindings: Seq<ComputeBindingLayout>,
}

impl View for ComputePipelineDescriptor {
    type V = ComputePipelineDescriptorView;

    open spec fn view(&self) -> ComputePipelineDescriptorView {
        ComputePipelineDescriptorView {
            shader_spv: self.shader_spv@,
            entry_point: self.entry_point@,
            bindings: self.bindings@,
        }
    }
}

impl ComputePipelineDescriptor {
    /// A copy of the descriptor with the same shader bytes, entry point and
    /// bindings.
    pub fn copy(&self) -> (r: Self)
        ensures
            r@ == self@,
    {
        let mut shader_spv: Vec<u8> = Vec::with_capacity(self.shader_spv.len());
        let mut i: usize = 0;
        while i < self.shader_spv.len()
            invariant
                i <= self.shader_spv@.len(),
                shader_spv@ == self.shader_spv@.take(i as int),
            decreases self.shader_spv@.len() - i,
        {
            shader_spv.push(self.shader_spv[i]);
            i += 1;
            assert(shader_spv@ =~= self.shader_spv@.take(i as int));
        }
        assert(self.shader_spv@.take(i as int) =~= self.shader_spv@);
        let mut bindings: Vec<ComputeBindingLayout> = Vec::with_capacity(self.bindings.len());
        let mut j: usize = 0;
        while j < self.bindings.len()
            invariant
                j <= self.bindings@.len(),
                bindings@ == self.bindings@.take(j as int),
            decreases self.bindings@.len() - j,
        {
            bindings.push(self.bindings[j]);
            j += 1;
            assert(bindings@ =~= self.bindings@.take(j as int));
        }
        assert(self.bindings@.take(j as int) =~= self.bindings@);
        ComputePipelineDescriptor { shader_spv, entry_point: self.entry_point.clone(), bindings }
    }
}

/// One command of a frame.
#[derive(Debug, Clone)]
pub enum RenderCommand {
    /// A buffer state transition; nothing to record on this backend.
    TransitionBuffer { buffer: BufferId },
    DispatchCompute(ComputePassDescriptor),
    DrawGraphics(PassDescriptor),
}

} // verus!
