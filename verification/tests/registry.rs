use rotex_wgpu::descriptors::{
    CullMode, Extent2D, ImageFormat, IndexFormat, MaterialDescriptor, MaterialId, MeshDescriptor,
    MeshId, ResourceBatchCreate, ResourceBatchUpdate, ResourceCreateDescriptor, ResourceHandle,
    ResourceUpdateDescriptor, TextureDescriptor, TextureId, VertexAttribute, VertexBufferLayout,
    VertexFormat,
};
use rotex_wgpu::error::{ErrorKind, Severity};
use rotex_wgpu::registry::{BridgeState, MaterialPipelineKey};

fn material(texture: Option<TextureId>, depth: bool) -> MaterialDescriptor {
    MaterialDescriptor {
        vertex_shader_spv: vec![3, 2, 35, 7],
        fragment_shader_spv: vec![3, 2, 35, 7],
        vertex_entry: "vs_main".to_string(),
        fragment_entry: "fs_main".to_string(),
        enable_depth: depth,
        cull_mode: CullMode::Back,
        texture,
    }
}

fn mesh() -> MeshDescriptor {
    MeshDescriptor {
        vertex_data: vec![0u8; 24],
        vertex_layout: VertexBufferLayout {
            array_stride: 8,
            attributes: vec![VertexAttribute { format: VertexFormat::Float32x2, offset: 0, location: 0 }],
        },
        index_data: vec![0u8; 6],
        index_format: IndexFormat::Uint16,
        index_count: 3,
    }
}

fn texture(width: u32, height: u32) -> TextureDescriptor {
    TextureDescriptor { width, height, format: ImageFormat::Rgba8Unorm, data: vec![255u8; (width.max(1) * height.max(1) * 4) as usize] }
}

fn state() -> BridgeState {
    BridgeState::new(256, 64)
}

#[test]
fn identifiers_start_at_one_and_count_per_kind() {
    let mut s = state();
    let a = s.create_resource(ResourceCreateDescriptor::Material(material(None, false))).unwrap();
    let b = s.create_resource(ResourceCreateDescriptor::Mesh(mesh())).unwrap();
    let c = s.create_resource(ResourceCreateDescriptor::Material(material(None, true))).unwrap();
    let d = s.create_resource(ResourceCreateDescriptor::Texture(texture(2, 2))).unwrap();
    assert_eq!(a, ResourceHandle::Material(MaterialId(1)));
    assert_eq!(b, ResourceHandle::Mesh(MeshId(1)));
    assert_eq!(c, ResourceHandle::Material(MaterialId(2)));
    assert_eq!(d, ResourceHandle::Texture(TextureId(1)));
    assert_eq!(s.next_material_id, 3);
    assert_eq!(s.resources.materials.get(&2).unwrap().enable_depth, true);
    let t = s.resources.textures.get(&1).unwrap();
    assert_eq!((t.width, t.height, t.has_render_view), (2, 2, false));
}

#[test]
fn refused_mesh_and_texture_consume_identifiers_refused_material_does_not() {
    let mut s = state();
    let mut bad_mesh = mesh();
    bad_mesh.index_count = 0;
    let e = s.create_resource(ResourceCreateDescriptor::Mesh(bad_mesh)).unwrap_err();
    assert!(matches!(e.kind, ErrorKind::InvalidDescriptor("mesh_missing_indices")));
    assert_eq!(s.next_mesh_id, 2);
    assert!(s.resources.meshes.is_empty());

    let mut bad_texture = texture(2, 2);
    bad_texture.data.truncate(3);
    let e = s.create_resource(ResourceCreateDescriptor::Texture(bad_texture)).unwrap_err();
    assert!(matches!(e.kind, ErrorKind::TextureUploadFailed("texture_data_too_small")));
    assert_eq!(s.next_texture_id, 2);

    let mut bad_material = material(None, false);
    bad_material.vertex_entry = String::new();
    let e = s.create_resource(ResourceCreateDescriptor::Material(bad_material)).unwrap_err();
    assert!(matches!(e.kind, ErrorKind::InvalidDescriptor("material_shader_entry_missing")));
    assert_eq!(s.next_material_id, 1);
}

#[test]
fn batch_stops_at_first_refusal_and_keeps_earlier_resources() {
    let mut s = state();
    let mut bad = material(None, false);
    bad.fragment_shader_spv = vec![1, 2, 3];
    let batch = ResourceBatchCreate {
        resources: vec![
            ResourceCreateDescriptor::Mesh(mesh()),
            ResourceCreateDescriptor::Material(bad),
            ResourceCreateDescriptor::Material(material(None, false)),
        ],
    };
    let e = s.create_resources(batch).unwrap_err();
    assert!(matches!(e.kind, ErrorKind::InvalidDescriptor("material_shader_bytes_not_word_aligned")));
    assert_eq!(s.resources.meshes.len(), 1);
    assert!(s.resources.materials.is_empty());
    assert_eq!(s.next_material_id, 1);
}

#[test]
fn batch_handles_are_fresh_and_distinct() {
    let mut s = state();
    s.create_resource(ResourceCreateDescriptor::Material(material(None, false))).unwrap();
    let before = s.next_material_id;
    let batch = ResourceBatchCreate {
        resources: vec![
            ResourceCreateDescriptor::Material(material(None, false)),
            ResourceCreateDescriptor::Texture(texture(1, 1)),
            ResourceCreateDescriptor::Material(material(None, true)),
        ],
    };
    let created = s.create_resources(batch).unwrap();
    assert_eq!(
        created.handles,
        vec![
            ResourceHandle::Material(MaterialId(before)),
            ResourceHandle::Texture(TextureId(1)),
            ResourceHandle::Material(MaterialId(before + 1)),
        ]
    );
    assert!(s.resources.materials.contains_key(&1));
}

#[test]
fn single_resource_batch_matches_single_create() {
    let mut a = state();
    let mut b = state();
    let h = a.create_resource(ResourceCreateDescriptor::Mesh(mesh())).unwrap();
    let c = b.create_resources(ResourceBatchCreate { resources: vec![ResourceCreateDescriptor::Mesh(mesh())] }).unwrap();
    assert_eq!(c.handles, vec![h]);
    assert_eq!(a.next_mesh_id, b.next_mesh_id);
}

#[test]
fn mesh_update_at_unused_identifier_is_later_overwritten_by_creation() {
    // The one case where creation replaces a resource: an update stored a
    // mesh under an identifier not handed out yet.
    let mut s = state();
    let m = mesh();
    s.update_resource(ResourceUpdateDescriptor::Mesh {
        id: MeshId(1),
        vertex_data: m.vertex_data.clone(),
        vertex_layout: m.vertex_layout.clone(),
        index_data: m.index_data.clone(),
        index_format: m.index_format,
        index_count: m.index_count,
    })
    .unwrap();
    let mut other = mesh();
    other.index_count = 2;
    other.index_data = vec![0u8; 4];
    let h = s.create_resource(ResourceCreateDescriptor::Mesh(other)).unwrap();
    assert_eq!(h, ResourceHandle::Mesh(MeshId(1)));
    assert_eq!(s.resources.meshes.get(&1).unwrap().index_count, 2);
}

#[test]
fn material_update_needs_material_and_texture() {
    let mut s = state();
    s.create_resource(ResourceCreateDescriptor::Material(material(None, false))).unwrap();
    let e = s
        .update_resource(ResourceUpdateDescriptor::Material { id: MaterialId(7), enable_depth: Some(true), texture: None })
        .unwrap_err();
    assert!(matches!(e.kind, ErrorKind::ResourceNotFound("material")));
    assert_eq!(e.severity, Severity::Recoverable);
    // The depth flag is applied before the texture is found missing.
    let e = s
        .update_resource(ResourceUpdateDescriptor::Material {
            id: MaterialId(1),
            enable_depth: Some(true),
            texture: Some(Some(TextureId(5))),
        })
        .unwrap_err();
    assert!(matches!(e.kind, ErrorKind::ResourceNotFound("texture")));
    let m = s.resources.materials.get(&1).unwrap();
    assert!(m.enable_depth);
    assert_eq!(m.texture, None);
}

#[test]
fn material_update_sets_texture_and_drops_its_pipelines() {
    let mut s = state();
    s.attach_surface(Extent2D { width: 10, height: 10 });
    s.create_resource(ResourceCreateDescriptor::Material(material(None, false))).unwrap();
    s.create_resource(ResourceCreateDescriptor::Material(material(None, false))).unwrap();
    s.create_resource(ResourceCreateDescriptor::Texture(texture(1, 1))).unwrap();
    s.pipeline_for_draw(MaterialId(1), 42, false).unwrap();
    s.pipeline_for_draw(MaterialId(2), 42, false).unwrap();
    s.pipeline_for_draw(MaterialId(1), 43, false).unwrap();
    assert_eq!(s.pipeline_cache.len(), 3);
    s.update_resource(ResourceUpdateDescriptor::Material {
        id: MaterialId(1),
        enable_depth: None,
        texture: Some(Some(TextureId(1))),
    })
    .unwrap();
    assert_eq!(s.resources.materials.get(&1).unwrap().texture, Some(TextureId(1)));
    assert_eq!(
        s.pipeline_cache,
        vec![MaterialPipelineKey { material_id: MaterialId(2), vertex_layout_id: 42, depth_enabled: false }]
    );
}

#[test]
fn mesh_and_texture_updates_validate() {
    let mut s = state();
    let m = mesh();
    let e = s
        .update_resource(ResourceUpdateDescriptor::Mesh {
            id: MeshId(3),
            vertex_data: vec![],
            vertex_layout: m.vertex_layout.clone(),
            index_data: m.index_data.clone(),
            index_format: m.index_format,
            index_count: m.index_count,
        })
        .unwrap_err();
    assert!(matches!(e.kind, ErrorKind::InvalidDescriptor("mesh_missing_vertex_data")));
    let e = s.update_resource(ResourceUpdateDescriptor::Texture { id: TextureId(1), data: vec![0; 4] }).unwrap_err();
    assert!(matches!(e.kind, ErrorKind::ResourceNotFound("texture")));
    s.create_resource(ResourceCreateDescriptor::Texture(texture(2, 1))).unwrap();
    let e = s.update_resource(ResourceUpdateDescriptor::Texture { id: TextureId(1), data: vec![0; 7] }).unwrap_err();
    assert!(matches!(e.kind, ErrorKind::TextureUploadFailed("texture_data_too_small")));
    s.update_resource(ResourceUpdateDescriptor::Texture { id: TextureId(1), data: vec![0; 8] }).unwrap();
}

#[test]
fn update_batch_stops_at_first_refusal() {
    let mut s = state();
    s.create_resource(ResourceCreateDescriptor::Material(material(None, false))).unwrap();
    let batch = ResourceBatchUpdate {
        updates: vec![
            ResourceUpdateDescriptor::Material { id: MaterialId(1), enable_depth: Some(true), texture: None },
            ResourceUpdateDescriptor::Texture { id: TextureId(9), data: vec![] },
            ResourceUpdateDescriptor::Material { id: MaterialId(1), enable_depth: Some(false), texture: None },
        ],
    };
    let e = s.update_resources(batch).unwrap_err();
    assert!(matches!(e.kind, ErrorKind::ResourceNotFound("texture")));
    assert!(s.resources.materials.get(&1).unwrap().enable_depth);
}

#[test]
fn pipeline_lookup_needs_material_and_swapchain() {
    let mut s = state();
    let e = s.pipeline_for_draw(MaterialId(1), 0, false).unwrap_err();
    assert!(matches!(e.kind, ErrorKind::ResourceNotFound("material")));
    s.create_resource(ResourceCreateDescriptor::Material(material(None, true))).unwrap();
    let e = s.pipeline_for_draw(MaterialId(1), 0, false).unwrap_err();
    assert!(matches!(e.kind, ErrorKind::SurfaceNotAttached));
    assert_eq!(e.severity, Severity::Fatal);
    assert!(s.pipeline_cache.is_empty());
}

#[test]
fn pipeline_lookup_builds_once_then_reuses() {
    let mut s = state();
    s.attach_surface(Extent2D { width: 4, height: 4 });
    s.create_resource(ResourceCreateDescriptor::Material(material(None, true))).unwrap();
    let first = s.pipeline_for_draw(MaterialId(1), 9, true).unwrap();
    assert!(first.needs_build);
    assert!(first.key.depth_enabled);
    let second = s.pipeline_for_draw(MaterialId(1), 9, true).unwrap();
    assert!(!second.needs_build);
    assert_eq!(second.key, first.key);
    let flat = s.pipeline_for_draw(MaterialId(1), 9, false).unwrap();
    assert!(flat.needs_build);
    assert!(!flat.key.depth_enabled);
    assert_eq!(s.pipeline_cache.len(), 2);
    s.invalidate_all();
    assert!(s.pipeline_cache.is_empty());
    assert!(s.pipeline_for_draw(MaterialId(1), 9, true).unwrap().needs_build);
}
