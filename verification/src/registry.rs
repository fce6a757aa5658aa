//! The bridge's registry of resources and caches: resource creation with
//! fresh identifiers, resource updates, and the render-pipeline cache.

use std::collections::HashMap;
use vstd::prelude::*;

use crate::descriptors::{
    at_least_one, CreatedResources, Extent2D, ImageFormat, MaterialDescriptor, MaterialId,
    MeshDescriptor, MeshId, ResourceBatchCreate, ResourceBatchUpdate, ResourceCreateDescriptor,
    ResourceHandle, ResourceUpdateDescriptor, TextureId,
};
use crate::error::{fatal_error, recoverable_error, surface_not_attached_error, Error, ErrorKind};
use crate::layout::{create_mesh_record, mesh_fault, mesh_record_of, MeshRecord, MeshRecordView};
use crate::shader::{material_fault, validate_material_descriptor};
use crate::upload::{texture_upload_fault, validate_texture_upload};

verus! {

broadcast use {
    vstd::std_specs::hash::group_hash_axioms,
};

/// What the bridge keeps of a texture besides its GPU objects.
#[derive(Debug, Clone, Copy, PartialEq, Eq, Structural)]
pub struct TextureRecord {
    /// Texel format.
    pub format: ImageFormat,
    /// Width in texels.
    pub width: u32,
    /// Height in texels.
    pub height: u32,
    /// Whether the texture can be drawn into.
    pub has_render_view: bool,
}

/// What the bridge keeps of a storage buffer besides its GPU object.
#[derive(Debug, Clone, Copy, PartialEq, Eq, Structural)]
pub struct BufferRecord {
    /// Size in bytes.
    pub size: u64,
}

/// What the bridge keeps of a compute pipeline besides its GPU objects.
#[derive(Debug, Clone, Copy, PartialEq, Eq, Structural)]
pub struct ComputePipelineRecord {
    /// Number of bind-group layouts the pipeline was built with.
    pub bind_group_layout_count: usize,
}

/// Cache key of a material render pipeline variant.
#[derive(Debug, Clone, Copy, PartialEq, Eq, Hash, Structural)]
pub struct MaterialPipelineKey {
    /// Source material identifier.
    pub material_id: MaterialId,
    /// Hashed vertex layout used by the mesh draw.
    pub vertex_layout_id: u64,
    /// Whether depth testing is enabled for this pipeline.
    pub depth_enabled: bool,
}

/// Key of a depth attachment.
#[derive(Debug, Clone, Copy, PartialEq, Eq, Structural)]
pub enum DepthTargetKey {
    /// The depth attachment of the swapchain at a given size.
    Swapchain { width: u32, height: u32 },
    /// The depth attachment of a texture target.
    Texture(TextureId),
}

/// A depth attachment the bridge holds, with its size.
#[derive(Debug, Clone, Copy, PartialEq, Eq, Structural)]
pub struct DepthTarget {
    pub key: DepthTargetKey,
    pub width: u32,
    pub height: u32,
}

/// In-memory registry of bridge-owned resources, keyed by identifier.
#[derive(Debug)]
pub struct ResourceStorage {
    /// Mesh records keyed by mesh ID.
    pub meshes: HashMap<u64, MeshRecord>,
    /// Material descriptors keyed by material ID.
    pub materials: HashMap<u64, MaterialDescriptor>,
    /// Texture records keyed by texture ID.
    pub textures: HashMap<u64, TextureRecord>,
    /// Storage buffer records keyed by buffer ID.
    pub buffers: HashMap<u64, BufferRecord>,
    /// Compute pipeline records keyed by pipeline ID.
    pub compute_pipelines: HashMap<u64, ComputePipelineRecord>,
}

impl ResourceStorage {
    /// An empty registry.
    pub fn new() -> (r: Self)
        ensures
            r.meshes@ == Map::<u64, MeshRecord>::empty(),
            r.materials@ == Map::<u64, MaterialDescriptor>::empty(),
            r.textures@ == Map::<u64, TextureRecord>::empty(),
            r.buffers@ == Map::<u64, BufferRecord>::empty(),
            r.compute_pipelines@ == Map::<u64, ComputePipelineRecord>::empty(),
    {
        ResourceStorage {
            meshes: HashMap::new(),
            materials: HashMap::new(),
            textures: HashMap::new(),
            buffers: HashMap::new(),
            compute_pipelines: HashMap::new(),
        }
    }
}

/// The state of a bridge that its decisions depend on: resources, the next
/// identifiers, the pipeline cache, the surface, depth attachments and the
/// per-object uniform buffer.
#[derive(Debug)]
pub struct BridgeState {
    pub resources: ResourceStorage,
    pub next_mesh_id: u64,
    pub next_material_id: u64,
    pub next_texture_id: u64,
    pub next_buffer_id: u64,
    pub next_compute_pipeline_id: u64,
    /// Keys of the render pipelines built so far.
    pub pipeline_cache: Vec<MaterialPipelineKey>,
    /// Whether a surface is attached.
    pub surface_attached: bool,
    /// Size of the configured swapchain, if any.
    pub swapchain: Option<Extent2D>,
    /// Depth attachments held, one per key.
    pub depth_targets: Vec<DepthTarget>,
    /// Bytes between consecutive objects in the per-object uniform buffer.
    pub object_aligned_stride: u32,
    /// Number of objects the per-object uniform buffer holds.
    pub object_buffer_capacity: u32,
}

/// Abstract state of a bridge.
#[verifier::ext_equal]
pub struct BridgeView {
    pub meshes: Map<u64, MeshRecordView>,
    pub materials: Map<u64, MaterialDescriptor>,
    pub textures: Map<u64, TextureRecord>,
    pub buffers: Map<u64, BufferRecord>,
    pub compute_pipelines: Map<u64, ComputePipelineRecord>,
    pub next_mesh_id: u64,
    pub next_material_id: u64,
    pub next_texture_id: u64,
    pub next_buffer_id: u64,
    pub next_compute_pipeline_id: u64,
    pub pipeline_cache: Seq<MaterialPipelineKey>,
    pub surface_attached: bool,
    pub swapchain: Option<Extent2D>,
    pub depth_targets: Seq<DepthTarget>,
    pub object_aligned_stride: u32,
    pub object_buffer_capacity: u32,
}

/// The views of the records of a mesh map.
pub open spec fn mesh_views(meshes: Map<u64, MeshRecord>) -> Map<u64, MeshRecordView> {
    meshes.map_values(|r: MeshRecord| r@)
}

impl View for BridgeState {
    type V = BridgeView;

    open spec fn view(&self) -> BridgeView {
        BridgeView {
            meshes: mesh_views(self.resources.meshes@),
            materials: self.resources.materials@,
            textures: self.resources.textures@,
            buffers: self.resources.buffers@,
            compute_pipelines: self.resources.compute_pipelines@,
            next_mesh_id: self.next_mesh_id,
            next_material_id: self.next_material_id,
            next_texture_id: self.next_texture_id,
            next_buffer_id: self.next_buffer_id,
            next_compute_pipeline_id: self.next_compute_pipeline_id,
            pipeline_cache: self.pipeline_cache@,
            surface_attached: self.surface_attached,
            swapchain: self.swapchain,
            depth_targets: self.depth_targets@,
            object_aligned_stride: self.object_aligned_stride,
            object_buffer_capacity: self.object_buffer_capacity,
        }
    }
}

/// The record kept for a texture created from a descriptor of this size and
/// format: the size raised to at least one texel each way, no render view.
pub open spec fn texture_record_of(format: ImageFormat, width: u32, height: u32) -> TextureRecord {
    TextureRecord {
        format,
        width: at_least_one(width),
        height: at_least_one(height),
        has_render_view: false,
    }
}

/// The outcome of creating one resource. A mesh or texture takes the next
/// identifier of its kind even when it is refused; a material takes one only
/// when it is accepted.
pub open spec fn create_step(s: BridgeView, resource: ResourceCreateDescriptor) -> (BridgeView, Result<ResourceHandle, Error>) {
    match resource {
        ResourceCreateDescriptor::Mesh(mesh) => {
            let id = s.next_mesh_id;
            let s1 = BridgeView { next_mesh_id: (id + 1) as u64, ..s };
            match mesh_fault(mesh) {
                Some(k) => (s1, Err(recoverable_error(k))),
                None => (
                    BridgeView { meshes: s.meshes.insert(id, mesh_record_of(mesh)), ..s1 },
                    Ok(ResourceHandle::Mesh(MeshId(id))),
                ),
            }
        },
        ResourceCreateDescriptor::Material(material) => {
            let id = s.next_material_id;
            match material_fault(material) {
                Some(k) => (s, Err(recoverable_error(k))),
                None => (
                    BridgeView {
                        materials: s.materials.insert(id, material),
                        next_material_id: (id + 1) as u64,
                        ..s
                    },
                    Ok(ResourceHandle::Material(MaterialId(id))),
                ),
            }
        },
        ResourceCreateDescriptor::Texture(texture) => {
            let id = s.next_texture_id;
            let s1 = BridgeView { next_texture_id: (id + 1) as u64, ..s };
            match texture_upload_fault(texture.format, texture.width, texture.height, texture.data@.len()) {
                Some(k) => (s1, Err(recoverable_error(k))),
                None => (
                    BridgeView {
                        textures: s.textures.insert(id, texture_record_of(texture.format, texture.width, texture.height)),
                        ..s1
                    },
                    Ok(ResourceHandle::Texture(TextureId(id))),
                ),
            }
        },
    }
}

/// The outcome of creating a batch of resources in order, stopping at the
/// first refusal; what was created before it stays created.
pub open spec fn create_all(s: BridgeView, resources: Seq<ResourceCreateDescriptor>) -> (BridgeView, Result<Seq<ResourceHandle>, Error>)
    decreases resources.len(),
{
    if resources.len() == 0 {
        (s, Ok(Seq::empty()))
    } else {
        let (s1, r1) = create_all(s, resources.drop_last());
        match r1 {
            Err(e) => (s1, Err(e)),
            Ok(handles) => {
                let (s2, r2) = create_step(s1, resources.last());
                match r2 {
                    Err(e) => (s2, Err(e)),
                    Ok(h) => (s2, Ok(handles.push(h))),
                }
            },
        }
    }
}

/// Whether a resource is a mesh, a material or a texture.
pub open spec fn resource_kind(resource: ResourceCreateDescriptor) -> int {
    match resource {
        ResourceCreateDescriptor::Mesh(_) => 0,
        ResourceCreateDescriptor::Material(_) => 1,
        ResourceCreateDescriptor::Texture(_) => 2,
    }
}

/// Number of resources of a kind in a batch.
pub open spec fn kind_count(resources: Seq<ResourceCreateDescriptor>, kind: int) -> nat
    decreases resources.len(),
{
    if resources.len() == 0 {
        0
    } else {
        kind_count(resources.drop_last(), kind) + if resource_kind(resources.last()) == kind {
            1nat
        } else {
            0nat
        }
    }
}

/// Whether the identifiers left for each kind cover the resources of that
/// kind in a batch.
pub open spec fn ids_available(s: BridgeView, resources: Seq<ResourceCreateDescriptor>) -> bool {
    &&& s.next_mesh_id + kind_count(resources, 0) <= u64::MAX
    &&& s.next_material_id + kind_count(resources, 1) <= u64::MAX
    &&& s.next_texture_id + kind_count(resources, 2) <= u64::MAX
}

/// A batch holds no more resources of a kind than resources.
pub proof fn lemma_kind_count_bound(resources: Seq<ResourceCreateDescriptor>, kind: int)
    ensures
        kind_count(resources, kind) <= resources.len(),
    decreases resources.len(),
{
    if resources.len() > 0 {
        lemma_kind_count_bound(resources.drop_last(), kind);
    }
}

/// Whether an identifier is left for a resource of this kind.
pub open spec fn id_available(s: BridgeView, resource: ResourceCreateDescriptor) -> bool {
    match resource {
        ResourceCreateDescriptor::Mesh(_) => s.next_mesh_id < u64::MAX,
        ResourceCreateDescriptor::Material(_) => s.next_material_id < u64::MAX,
        ResourceCreateDescriptor::Texture(_) => s.next_texture_id < u64::MAX,
    }
}

/// Identifiers never decrease along a batch.
pub proof fn lemma_create_all_ids(s: BridgeView, resources: Seq<ResourceCreateDescriptor>)
    requires
        ids_available(s, resources),
    ensures
        create_all(s, resources).0.next_mesh_id <= s.next_mesh_id + kind_count(resources, 0),
        create_all(s, resources).0.next_material_id <= s.next_material_id + kind_count(resources, 1),
        create_all(s, resources).0.next_texture_id <= s.next_texture_id + kind_count(resources, 2),
        create_all(s, resources).0.next_mesh_id >= s.next_mesh_id,
        create_all(s, resources).0.next_material_id >= s.next_material_id,
        create_all(s, resources).0.next_texture_id >= s.next_texture_id,
    decreases resources.len(),
{
    if resources.len() > 0 {
        lemma_create_all_ids(s, resources.drop_last());
    }
}

/// Resource counts of a batch only grow along its prefixes.
pub proof fn lemma_kind_count_prefix(resources: Seq<ResourceCreateDescriptor>, k: int, kind: int)
    requires
        0 <= k < resources.len(),
    ensures
        kind_count(resources.take(k + 1), kind) == kind_count(resources.take(k), kind) + if resource_kind(resources[k]) == kind {
            1nat
        } else {
            0nat
        },
        kind_count(resources.take(k + 1), kind) <= kind_count(resources, kind),
    decreases resources.len(),
{
    assert(resources.take(k + 1).drop_last() =~= resources.take(k));
    if k + 1 < resources.len() {
        lemma_kind_count_prefix(resources.drop_last(), k, kind);
        assert(resources.drop_last().take(k + 1) =~= resources.take(k + 1));
    } else {
        assert(resources.take(k + 1) =~= resources);
    }
}

/// Once a batch prefix is refused, the whole batch ends in the same state
/// with the same error.
pub proof fn lemma_create_all_err_persists(s: BridgeView, resources: Seq<ResourceCreateDescriptor>, k: int)
    requires
        0 <= k <= resources.len(),
        create_all(s, resources.take(k)).1 is Err,
    ensures
        create_all(s, resources) == create_all(s, resources.take(k)),
    decreases resources.len() - k,
{
    if k < resources.len() {
        assert(resources.take(k + 1).drop_last() =~= resources.take(k));
        lemma_create_all_err_persists(s, resources, k + 1);
    } else {
        assert(resources.take(k) =~= resources);
    }
}

impl BridgeState {
    /// A bridge with no resources, no surface, identifiers starting at one,
    /// and a per-object uniform buffer of `object_buffer_capacity` objects
    /// `object_aligned_stride` bytes apart.
    pub fn new(object_aligned_stride: u32, object_buffer_capacity: u32) -> (r: Self)
        ensures
            r@ == Self::new_view(object_aligned_stride, object_buffer_capacity),
    {
        let r = BridgeState {
            resources: ResourceStorage::new(),
            next_mesh_id: 1,
            next_material_id: 1,
            next_texture_id: 1,
            next_buffer_id: 1,
            next_compute_pipeline_id: 1,
            pipeline_cache: Vec::new(),
            surface_attached: false,
            swapchain: None,
            depth_targets: Vec::new(),
            object_aligned_stride,
            object_buffer_capacity,
        };
        assert(mesh_views(r.resources.meshes@) =~= Map::empty());
        assert(r@ =~= Self::new_view(object_aligned_stride, object_buffer_capacity));
        r
    }

    /// The abstract state of a new bridge.
    pub open spec fn new_view(object_aligned_stride: u32, object_buffer_capacity: u32) -> BridgeView {
        (BridgeView {
            meshes: Map::empty(),
            materials: Map::empty(),
            textures: Map::empty(),
            buffers: Map::empty(),
            compute_pipelines: Map::empty(),
            next_mesh_id: 1,
            next_material_id: 1,
            next_texture_id: 1,
            next_buffer_id: 1,
            next_compute_pipeline_id: 1,
            pipeline_cache: Seq::empty(),
            surface_attached: false,
            swapchain: None,
            depth_targets: Seq::empty(),
            object_aligned_stride,
            object_buffer_capacity,
        })
    }

    /// Creates one resource: validates it, gives it the next identifier of its
    /// kind and registers it (see [`create_step`]).
    pub fn create_resource(&mut self, resource: ResourceCreateDescriptor) -> (r: Result<ResourceHandle, Error>)
        requires
            id_available(old(self)@, resource),
        ensures
            final(self)@ == create_step(old(self)@, resource).0,
            r == create_step(old(self)@, resource).1,
    {
        let ghost s = self@;
        match resource {
            ResourceCreateDescriptor::Mesh(mesh) => {
                let id = self.next_mesh_id;
                self.next_mesh_id = id + 1;
                let record = match create_mesh_record(&mesh) {
                    Ok(record) => record,
                    Err(e) => {
                        assert(self@ =~= create_step(s, resource).0);
                        return Err(e);
                    },
                };
                self.resources.meshes.insert(id, record);
                assert(mesh_views(self.resources.meshes@) =~= s.meshes.insert(id, mesh_record_of(mesh)));
                assert(self@ =~= create_step(s, resource).0);
                Ok(ResourceHandle::Mesh(MeshId(id)))
            },
            ResourceCreateDescriptor::Material(material) => {
                validate_material_descriptor(&material)?;
                let id = self.next_material_id;
                self.next_material_id = id + 1;
                self.resources.materials.insert(id, material);
                assert(self@ =~= create_step(s, resource).0);
                Ok(ResourceHandle::Material(MaterialId(id)))
            },
            ResourceCreateDescriptor::Texture(texture) => {
                let id = self.next_texture_id;
                self.next_texture_id = id + 1;
                let width = if texture.width == 0 { 1 } else { texture.width };
                let height = if texture.height == 0 { 1 } else { texture.height };
                match validate_texture_upload(texture.format, width, height, texture.data.as_slice()) {
                    Ok(_) => {},
                    Err(e) => {
                        assert(self@ =~= create_step(s, resource).0);
                        return Err(e);
                    },
                }
                let record = TextureRecord {
                    format: texture.format,
                    width,
                    height,
                    has_render_view: false,
                };
                self.resources.textures.insert(id, record);
                assert(self@ =~= create_step(s, resource).0);
                Ok(ResourceHandle::Texture(TextureId(id)))
            },
        }
    }

    /// Creates a batch of resources in order, stopping at the first refusal
    /// (see [`create_all`]); returns one handle per resource.
    pub fn create_resources(&mut self, descriptor: ResourceBatchCreate) -> (r: Result<CreatedResources, Error>)
        requires
            ids_available(old(self)@, descriptor.resources@),
        ensures
            final(self)@ == create_all(old(self)@, descriptor.resources@).0,
            match create_all(old(self)@, descriptor.resources@).1 {
                Ok(handles) => r matches Ok(created) && created.handles@ == handles,
                Err(e) => r == Err::<CreatedResources, Error>(e),
            },
    {
        let ghost s = self@;
        let ghost all = descriptor.resources@;
        let total = descriptor.resources.len();
        let mut pending = descriptor.resources;
        let mut handles: Vec<ResourceHandle> = Vec::new();
        let mut k: usize = 0;
        assert(all.take(0) =~= Seq::<ResourceCreateDescriptor>::empty());
        assert(pending@ =~= all.skip(0));
        while pending.len() > 0
            invariant
                ids_available(s, all),
                all == descriptor.resources@,
                s == old(self)@,
                total == all.len(),
                k <= all.len(),
                pending@ == all.skip(k as int),
                self@ == create_all(s, all.take(k as int)).0,
                create_all(s, all.take(k as int)).1 == Ok::<Seq<ResourceHandle>, Error>(handles@),
            decreases pending@.len(),
        {
            let resource = pending.remove(0);
            proof {
                assert(resource == all[k as int]);
                assert(pending@ =~= all.skip(k + 1));
                lemma_kind_count_prefix(all, k as int, 0);
                lemma_kind_count_prefix(all, k as int, 1);
                lemma_kind_count_prefix(all, k as int, 2);
                lemma_create_all_ids(s, all.take(k as int));
                assert(all.take(k + 1).drop_last() =~= all.take(k as int));
                assert(all.take(k + 1).last() == resource);
                assert(id_available(self@, resource));
            }
            match self.create_resource(resource) {
                Ok(handle) => {
                    handles.push(handle);
                },
                Err(e) => {
                    proof {
                        let prev = create_all(s, all.take(k as int));
                        assert(create_all(s, all.take(k + 1)).0 == create_step(prev.0, resource).0);
                        assert(create_all(s, all.take(k + 1)).1 == Err::<Seq<ResourceHandle>, Error>(e));
                        lemma_create_all_err_persists(s, all, k + 1);
                    }
                    return Err(e);
                },
            }
            k += 1;
        }
        proof {
            assert(all.take(k as int) =~= all);
        }
        Ok(CreatedResources { handles })
    }
}


/// The mesh descriptor an update's fields describe.
pub open spec fn mesh_of_update(update: ResourceUpdateDescriptor) -> MeshDescriptor
    recommends
        update is Mesh,
{
    match update {
        ResourceUpdateDescriptor::Mesh { id, vertex_data, vertex_layout, index_data, index_format, index_count } =>
            MeshDescriptor { vertex_data, vertex_layout, index_data, index_format, index_count },
        _ => arbitrary(),
    }
}

/// The cache without the pipelines of material `id`, in order.
pub open spec fn without_material(cache: Seq<MaterialPipelineKey>, id: MaterialId) -> Seq<MaterialPipelineKey> {
    cache.filter(|k: MaterialPipelineKey| k.material_id != id)
}

/// `material` after an update of its depth flag.
pub open spec fn with_depth(material: MaterialDescriptor, enable_depth: Option<bool>) -> MaterialDescriptor {
    match enable_depth {
        Some(depth) => MaterialDescriptor { enable_depth: depth, ..material },
        None => material,
    }
}

/// The outcome of one resource update.
///
/// A mesh update validates the new geometry and stores it under the given
/// identifier, whether or not a mesh was there. A material update needs the
/// material; it sets the depth flag first, then the texture binding, which
/// must name an existing texture; once both are set, the cached pipelines of
/// that material are dropped. A texture update needs the texture and data
/// that fills it, and changes nothing here.
pub open spec fn update_step(s: BridgeView, update: ResourceUpdateDescriptor) -> (BridgeView, Result<(), Error>) {
    match update {
        ResourceUpdateDescriptor::Mesh { id, .. } => {
            let mesh = mesh_of_update(update);
            match mesh_fault(mesh) {
                Some(k) => (s, Err(recoverable_error(k))),
                None => (BridgeView { meshes: s.meshes.insert(id.0, mesh_record_of(mesh)), ..s }, Ok(())),
            }
        },
        ResourceUpdateDescriptor::Material { id, enable_depth, texture } => {
            if !s.materials.contains_key(id.0) {
                (s, Err(recoverable_error(ErrorKind::ResourceNotFound("material"))))
            } else {
                let m1 = with_depth(s.materials[id.0], enable_depth);
                match texture {
                    None => (
                        BridgeView {
                            materials: s.materials.insert(id.0, m1),
                            pipeline_cache: without_material(s.pipeline_cache, id),
                            ..s
                        },
                        Ok(()),
                    ),
                    Some(binding) => {
                        if binding is Some && !s.textures.contains_key(binding.unwrap().0) {
                            (
                                BridgeView { materials: s.materials.insert(id.0, m1), ..s },
                                Err(recoverable_error(ErrorKind::ResourceNotFound("texture"))),
                            )
                        } else {
                            (
                                BridgeView {
                                    materials: s.materials.insert(id.0, MaterialDescriptor { texture: binding, ..m1 }),
                                    pipeline_cache: without_material(s.pipeline_cache, id),
                                    ..s
                                },
                                Ok(()),
                            )
                        }
                    },
                }
            }
        },
        ResourceUpdateDescriptor::Texture { id, data } => {
            if !s.textures.contains_key(id.0) {
                (s, Err(recoverable_error(ErrorKind::ResourceNotFound("texture"))))
            } else {
                let t = s.textures[id.0];
                match texture_upload_fault(t.format, t.width, t.height, data@.len()) {
                    Some(k) => (s, Err(recoverable_error(k))),
                    None => (s, Ok(())),
                }
            }
        },
    }
}

/// The outcome of a batch of updates applied in order, stopping at the first
/// refusal; earlier updates stay applied.
pub open spec fn update_all(s: BridgeView, updates: Seq<ResourceUpdateDescriptor>) -> (BridgeView, Result<(), Error>)
    decreases updates.len(),
{
    if updates.len() == 0 {
        (s, Ok(()))
    } else {
        let (s1, r1) = update_all(s, updates.drop_last());
        match r1 {
            Err(e) => (s1, Err(e)),
            Ok(_) => update_step(s1, updates.last()),
        }
    }
}

/// Once a prefix of the updates is refused, the whole batch ends in the same
/// state with the same error.
pub proof fn lemma_update_all_err_persists(s: BridgeView, updates: Seq<ResourceUpdateDescriptor>, k: int)
    requires
        0 <= k <= updates.len(),
        update_all(s, updates.take(k)).1 is Err,
    ensures
        update_all(s, updates) == update_all(s, updates.take(k)),
    decreases updates.len() - k,
{
    if k < updates.len() {
        assert(updates.take(k + 1).drop_last() =~= updates.take(k));
        lemma_update_all_err_persists(s, updates, k + 1);
    } else {
        assert(updates.take(k) =~= updates);
    }
}

/// The outcome of looking up the render pipeline of a draw.
#[derive(Debug, Clone, Copy, PartialEq, Eq, Structural)]
pub struct PipelineLookup {
    /// Cache key of the pipeline.
    pub key: MaterialPipelineKey,
    /// Whether the pipeline was missing and has to be built now.
    pub needs_build: bool,
}

/// The cache key of a draw with material `material` (its descriptor `m`).
pub open spec fn pipeline_key(material: MaterialId, m: MaterialDescriptor, vertex_layout_id: u64, pass_uses_depth: bool) -> MaterialPipelineKey {
    MaterialPipelineKey { material_id: material, vertex_layout_id, depth_enabled: pass_uses_depth && m.enable_depth }
}

/// The outcome of a pipeline lookup: the material must exist; a cached key is
/// reused; a missing one needs a configured swapchain and is added to the
/// cache.
pub open spec fn pipeline_step(s: BridgeView, material: MaterialId, vertex_layout_id: u64, pass_uses_depth: bool) -> (BridgeView, Result<PipelineLookup, Error>) {
    if !s.materials.contains_key(material.0) {
        (s, Err(recoverable_error(ErrorKind::ResourceNotFound("material"))))
    } else {
        let key = pipeline_key(material, s.materials[material.0], vertex_layout_id, pass_uses_depth);
        if s.pipeline_cache.contains(key) {
            (s, Ok(PipelineLookup { key, needs_build: false }))
        } else if s.swapchain is None {
            (s, Err(fatal_error(ErrorKind::SurfaceNotAttached)))
        } else {
            (
                BridgeView { pipeline_cache: s.pipeline_cache.push(key), ..s },
                Ok(PipelineLookup { key, needs_build: true }),
            )
        }
    }
}

impl BridgeState {
    /// Drops the cached pipelines of material `id`, keeping the others in order.
    fn drop_material_pipelines(&mut self, id: MaterialId)
        ensures
            final(self)@ == (BridgeView { pipeline_cache: without_material(old(self)@.pipeline_cache, id), ..old(self)@ }),
    {
        let ghost s = self@;
        let ghost cache = self.pipeline_cache@;
        let mut kept: Vec<MaterialPipelineKey> = Vec::new();
        let n = self.pipeline_cache.len();
        let mut i: usize = 0;
        assert(cache.take(0) =~= Seq::<MaterialPipelineKey>::empty());
        while i < n
            invariant
                n == cache.len(),
                cache == self.pipeline_cache@,
                i <= n,
                kept@ == without_material(cache.take(i as int), id),
            decreases n - i,
        {
            proof {
                reveal_with_fuel(Seq::filter, 1);
                assert(cache.take(i + 1).drop_last() =~= cache.take(i as int));
            }
            let key = self.pipeline_cache[i];
            if key.material_id != id {
                kept.push(key);
            }
            i += 1;
        }
        assert(cache.take(n as int) =~= cache);
        self.pipeline_cache = kept;
        assert(self@ =~= (BridgeView { pipeline_cache: without_material(s.pipeline_cache, id), ..s }));
    }

    /// Applies one resource update (see [`update_step`]).
    pub fn update_resource(&mut self, update: ResourceUpdateDescriptor) -> (r: Result<(), Error>)
        ensures
            final(self)@ == update_step(old(self)@, update).0,
            r == update_step(old(self)@, update).1,
    {
        let ghost s = self@;
        let ghost u = update;
        match update {
            ResourceUpdateDescriptor::Mesh { id, vertex_data, vertex_layout, index_data, index_format, index_count } => {
                let mesh = MeshDescriptor { vertex_data, vertex_layout, index_data, index_format, index_count };
                assert(mesh == mesh_of_update(u));
                let record = create_mesh_record(&mesh)?;
                self.resources.meshes.insert(id.0, record);
                assert(mesh_views(self.resources.meshes@) =~= s.meshes.insert(id.0, mesh_record_of(mesh)));
                assert(self@ =~= update_step(s, u).0);
                Ok(())
            },
            ResourceUpdateDescriptor::Material { id, enable_depth, texture } => {
                let mut material = match self.resources.materials.remove(&id.0) {
                    Some(m) => m,
                    None => {
                        assert(self.resources.materials@ =~= s.materials);
                        assert(self@ =~= s);
                        return Err(Error::recoverable(ErrorKind::ResourceNotFound("material")));
                    },
                };
                if let Some(depth) = enable_depth {
                    material.enable_depth = depth;
                }
                assert(material == with_depth(s.materials[id.0], enable_depth));
                if let Some(texture_update) = texture {
                    if let Some(texture_id) = texture_update {
                        if !self.resources.textures.contains_key(&texture_id.0) {
                            self.resources.materials.insert(id.0, material);
                            assert(self.resources.materials@ =~= s.materials.insert(id.0, with_depth(s.materials[id.0], enable_depth)));
                            assert(self@ =~= update_step(s, u).0);
                            return Err(Error::recoverable(ErrorKind::ResourceNotFound("texture")));
                        }
                    }
                    material.texture = texture_update;
                }
                self.resources.materials.insert(id.0, material);
                assert(self.resources.materials@ =~= update_step(s, u).0.materials);
                self.drop_material_pipelines(id);
                assert(self@ =~= update_step(s, u).0);
                Ok(())
            },
            ResourceUpdateDescriptor::Texture { id, data } => {
                let record = match self.resources.textures.get(&id.0) {
                    Some(record) => *record,
                    None => {
                        return Err(Error::recoverable(ErrorKind::ResourceNotFound("texture")));
                    },
                };
                match validate_texture_upload(record.format, record.width, record.height, data.as_slice()) {
                    Ok(_) => Ok(()),
                    Err(e) => Err(e),
                }
            },
        }
    }

    /// Applies a batch of updates in order, stopping at the first refusal
    /// (see [`update_all`]).
    pub fn update_resources(&mut self, descriptor: ResourceBatchUpdate) -> (r: Result<(), Error>)
        ensures
            final(self)@ == update_all(old(self)@, descriptor.updates@).0,
            r == update_all(old(self)@, descriptor.updates@).1,
    {
        let ghost s = self@;
        let ghost all = descriptor.updates@;
        let total = descriptor.updates.len();
        let mut pending = descriptor.updates;
        let mut k: usize = 0;
        assert(all.take(0) =~= Seq::<ResourceUpdateDescriptor>::empty());
        assert(pending@ =~= all.skip(0));
        while pending.len() > 0
            invariant
                all == descriptor.updates@,
                s == old(self)@,
                total == all.len(),
                k <= all.len(),
                pending@ == all.skip(k as int),
                self@ == update_all(s, all.take(k as int)).0,
                update_all(s, all.take(k as int)).1 == Ok::<(), Error>(()),
            decreases pending@.len(),
        {
            let update = pending.remove(0);
            proof {
                assert(update == all[k as int]);
                assert(pending@ =~= all.skip(k + 1));
                assert(all.take(k + 1).drop_last() =~= all.take(k as int));
                assert(all.take(k + 1).last() == update);
            }
            let ghost before = self@;
            match self.update_resource(update) {
                Ok(()) => {},
                Err(e) => {
                    proof {
                        assert(update_all(s, all.take(k + 1)) == update_step(before, all[k as int]));
                        lemma_update_all_err_persists(s, all, k + 1);
                    }
                    return Err(e);
                },
            }
            k += 1;
        }
        proof {
            assert(all.take(k as int) =~= all);
        }
        Ok(())
    }

    /// Drops every cached pipeline.
    pub fn invalidate_all(&mut self)
        ensures
            final(self)@ == (BridgeView { pipeline_cache: Seq::empty(), ..old(self)@ }),
    {
        self.pipeline_cache.clear();
        assert(self@ =~= (BridgeView { pipeline_cache: Seq::empty(), ..old(self)@ }));
    }

    /// Whether the cache holds `key`.
    fn cache_contains(&self, key: MaterialPipelineKey) -> (r: bool)
        ensures
            r == self.pipeline_cache@.contains(key),
    {
        let n = self.pipeline_cache.len();
        let mut i: usize = 0;
        while i < n
            invariant
                n == self.pipeline_cache@.len(),
                i <= n,
                forall|j: int| 0 <= j < i ==> self.pipeline_cache@[j] != key,
            decreases n - i,
        {
            if self.pipeline_cache[i] == key {
                return true;
            }
            i += 1;
        }
        false
    }

    /// Finds the cached pipeline of a draw, or records that it must be built
    /// (see [`pipeline_step`]).
    pub fn pipeline_for_draw(&mut self, material_id: MaterialId, vertex_layout_id: u64, pass_uses_depth: bool) -> (r: Result<PipelineLookup, Error>)
        ensures
            final(self)@ == pipeline_step(old(self)@, material_id, vertex_layout_id, pass_uses_depth).0,
            r == pipeline_step(old(self)@, material_id, vertex_layout_id, pass_uses_depth).1,
    {
        let ghost s = self@;
        let enable_depth = match self.resources.materials.get(&material_id.0) {
            Some(material) => material.enable_depth,
            None => {
                return Err(Error::recoverable(ErrorKind::ResourceNotFound("material")));
            },
        };
        let key = MaterialPipelineKey {
            material_id,
            vertex_layout_id,
            depth_enabled: pass_uses_depth && enable_depth,
        };
        if self.cache_contains(key) {
            return Ok(PipelineLookup { key, needs_build: false });
        }
        if self.swapchain.is_none() {
            return Err(surface_not_attached_error());
        }
        self.pipeline_cache.push(key);
        assert(self@ =~= pipeline_step(s, material_id, vertex_layout_id, pass_uses_depth).0);
        Ok(PipelineLookup { key, needs_build: true })
    }
}

} // verus!
