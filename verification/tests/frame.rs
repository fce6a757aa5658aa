use rotex_wgpu::descriptors::{
    BufferId, ColorAttachmentLoad, ComputePassDescriptor, ComputePipelineId, CullMode,
    DepthAttachmentLoad, DrawInstance, Extent2D, ImageFormat, IndexFormat, MaterialDescriptor,
    MaterialId, MeshDescriptor, MeshId, PassColorTarget, PassDescriptor, RenderCommand,
    ResourceCreateDescriptor, TextureDescriptor, TextureId, VertexAttribute, VertexBufferLayout,
    VertexFormat,
};
use rotex_wgpu::error::{ErrorKind, Severity};
use rotex_wgpu::frame::{
    draw_list, effective_depth_load, frame_needs_swapchain, BindGroupChoice, ColorTargetChoice,
};
use rotex_wgpu::registry::{BridgeState, DepthTargetKey};

fn material(texture: Option<TextureId>, depth: bool) -> MaterialDescriptor {
    MaterialDescriptor {
        vertex_shader_spv: vec![3, 2, 35, 7],
        fragment_shader_spv: vec![3, 2, 35, 7],
        vertex_entry: "vs".to_string(),
        fragment_entry: "fs".to_string(),
        enable_depth: depth,
        cull_mode: CullMode::Disabled,
        texture,
    }
}

fn mesh(index_count: u32) -> MeshDescriptor {
    MeshDescriptor {
        vertex_data: vec![0u8; 16],
        vertex_layout: VertexBufferLayout {
            array_stride: 16,
            attributes: vec![VertexAttribute { format: VertexFormat::Float32x4, offset: 0, location: 0 }],
        },
        index_data: vec![0u8; index_count as usize * 4],
        index_format: IndexFormat::Uint32,
        index_count,
    }
}

fn pass(color_target: PassColorTarget, depth_load: DepthAttachmentLoad, instance_indices: Vec<usize>) -> PassDescriptor {
    PassDescriptor { color_target, color_load: ColorAttachmentLoad::Clear, depth_load, instance_indices }
}

#[test]
fn frame_needs_commands_and_detects_swapchain_draws() {
    let e = frame_needs_swapchain(&vec![]).unwrap_err();
    assert!(matches!(e.kind, ErrorKind::InvalidDescriptor("frame_has_no_commands")));
    assert_eq!(e.severity, Severity::Recoverable);
    let compute = RenderCommand::DispatchCompute(ComputePassDescriptor {
        pipeline: ComputePipelineId(1),
        buffer_intents: vec![],
        workgroup_count: [1, 1, 1],
    });
    let transition = RenderCommand::TransitionBuffer { buffer: BufferId(1) };
    let offscreen = RenderCommand::DrawGraphics(pass(PassColorTarget::Texture(TextureId(1)), DepthAttachmentLoad::Unused, vec![]));
    assert_eq!(frame_needs_swapchain(&vec![compute.clone(), transition.clone(), offscreen.clone()]).unwrap(), false);
    let onscreen = RenderCommand::DrawGraphics(pass(PassColorTarget::Swapchain, DepthAttachmentLoad::Unused, vec![]));
    assert_eq!(frame_needs_swapchain(&vec![compute, onscreen, offscreen]).unwrap(), true);
}

#[test]
fn draw_list_takes_all_or_the_listed_existing_instances() {
    assert_eq!(draw_list(3, &vec![]), vec![0, 1, 2]);
    assert_eq!(draw_list(3, &vec![2, 5, 0, 2]), vec![2, 0, 2]);
    assert_eq!(draw_list(0, &vec![0]), Vec::<usize>::new());
}

#[test]
fn depth_load_follows_pass_and_use() {
    let own = pass(PassColorTarget::Swapchain, DepthAttachmentLoad::Load, vec![]);
    let none = pass(PassColorTarget::Swapchain, DepthAttachmentLoad::Unused, vec![]);
    assert_eq!(effective_depth_load(&own, false), DepthAttachmentLoad::Unused);
    assert_eq!(effective_depth_load(&own, true), DepthAttachmentLoad::Load);
    assert_eq!(effective_depth_load(&none, true), DepthAttachmentLoad::Clear);
    assert!(own.uses_depth_attachment());
    assert!(!none.uses_depth_attachment());
}

#[test]
fn pass_uses_depth_when_a_drawn_material_tests_depth() {
    let mut s = BridgeState::new(256, 64);
    s.create_resource(ResourceCreateDescriptor::Material(material(None, false))).unwrap();
    s.create_resource(ResourceCreateDescriptor::Material(material(None, true))).unwrap();
    let instances = vec![
        DrawInstance { mesh: MeshId(1), material: MaterialId(1) },
        DrawInstance { mesh: MeshId(1), material: MaterialId(2) },
    ];
    let p = pass(PassColorTarget::Swapchain, DepthAttachmentLoad::Unused, vec![]);
    assert!(!s.pass_uses_depth(&p, &instances, &vec![0]));
    assert!(s.pass_uses_depth(&p, &instances, &vec![0, 1]));
    let own = pass(PassColorTarget::Swapchain, DepthAttachmentLoad::Clear, vec![]);
    assert!(s.pass_uses_depth(&own, &instances, &vec![]));
}

#[test]
fn color_target_needs_swapchain_or_render_view() {
    let mut s = BridgeState::new(256, 64);
    let sw = pass(PassColorTarget::Swapchain, DepthAttachmentLoad::Unused, vec![]);
    assert!(matches!(s.resolve_color_target(&sw, true).unwrap_err().kind, ErrorKind::SurfaceNotAttached));
    s.attach_surface(Extent2D { width: 8, height: 8 });
    assert!(matches!(s.resolve_color_target(&sw, false).unwrap_err().kind, ErrorKind::InvalidDescriptor("swapchain_view_missing")));
    assert_eq!(s.resolve_color_target(&sw, true).unwrap(), ColorTargetChoice::Swapchain);
    let tex = pass(PassColorTarget::Texture(TextureId(1)), DepthAttachmentLoad::Unused, vec![]);
    assert!(matches!(s.resolve_color_target(&tex, true).unwrap_err().kind, ErrorKind::ResourceNotFound("texture")));
    s.create_resource(ResourceCreateDescriptor::Texture(TextureDescriptor { width: 1, height: 1, format: ImageFormat::Rgba8Unorm, data: vec![0; 4] })).unwrap();
    assert!(matches!(s.resolve_color_target(&tex, true).unwrap_err().kind, ErrorKind::InvalidDescriptor("texture_missing_render_view")));
    s.resources.textures.get_mut(&1).unwrap().has_render_view = true;
    assert_eq!(s.resolve_color_target(&tex, true).unwrap(), ColorTargetChoice::Texture { id: TextureId(1), format: ImageFormat::Rgba8Unorm });
}

#[test]
fn object_buffer_grows_to_power_of_two_or_double() {
    let mut s = BridgeState::new(256, 64);
    assert_eq!(s.ensure_object_buffer_capacity(64), None);
    assert_eq!(s.object_buffer_capacity, 64);
    assert_eq!(s.ensure_object_buffer_capacity(65), Some(256 * 128));
    assert_eq!(s.object_buffer_capacity, 128);
    assert_eq!(s.ensure_object_buffer_capacity(600), Some(256 * 1024));
    assert_eq!(s.object_buffer_capacity, 1024);
    assert_eq!(s.ensure_object_buffer_capacity(0), None);
}

#[test]
fn depth_targets_are_recreated_only_when_needed() {
    let mut s = BridgeState::new(256, 64);
    let sw = pass(PassColorTarget::Swapchain, DepthAttachmentLoad::Clear, vec![]);
    assert!(matches!(s.ensure_depth_target(&sw).unwrap_err().kind, ErrorKind::SurfaceNotAttached));
    s.attach_surface(Extent2D { width: 0, height: 5 });
    let first = s.ensure_depth_target(&sw).unwrap();
    assert_eq!(first.key, DepthTargetKey::Swapchain { width: 1, height: 5 });
    assert!(first.recreate);
    let again = s.ensure_depth_target(&sw).unwrap();
    assert!(!again.recreate);
    assert_eq!((again.width, again.height), (1, 5));
    s.resize(Extent2D { width: 7, height: 3 }).unwrap();
    assert!(s.depth_targets.is_empty());
    let resized = s.ensure_depth_target(&sw).unwrap();
    assert!(resized.recreate);
    assert_eq!((resized.width, resized.height), (7, 3));
    let tex = pass(PassColorTarget::Texture(TextureId(1)), DepthAttachmentLoad::Clear, vec![]);
    assert!(matches!(s.ensure_depth_target(&tex).unwrap_err().kind, ErrorKind::ResourceNotFound("texture")));
    s.create_resource(ResourceCreateDescriptor::Texture(TextureDescriptor { width: 3, height: 2, format: ImageFormat::Rgba8Unorm, data: vec![0; 24] })).unwrap();
    let t = s.ensure_depth_target(&tex).unwrap();
    assert_eq!((t.width, t.height, t.recreate), (3, 2, true));
    assert!(!s.ensure_depth_target(&tex).unwrap().recreate);
    assert_eq!(s.depth_targets.len(), 2);
}

#[test]
fn material_bind_group_uses_texture_or_fallback() {
    let mut s = BridgeState::new(256, 64);
    assert!(matches!(s.material_bind_group_for_instance(MaterialId(1)).unwrap_err().kind, ErrorKind::ResourceNotFound("material")));
    s.create_resource(ResourceCreateDescriptor::Material(material(None, false))).unwrap();
    s.create_resource(ResourceCreateDescriptor::Material(material(Some(TextureId(1)), false))).unwrap();
    assert_eq!(s.material_bind_group_for_instance(MaterialId(1)).unwrap(), BindGroupChoice::Fallback);
    assert!(matches!(s.material_bind_group_for_instance(MaterialId(2)).unwrap_err().kind, ErrorKind::ResourceNotFound("texture")));
    s.create_resource(ResourceCreateDescriptor::Texture(TextureDescriptor { width: 1, height: 1, format: ImageFormat::Rgba8Unorm, data: vec![0; 4] })).unwrap();
    assert_eq!(s.material_bind_group_for_instance(MaterialId(2)).unwrap(), BindGroupChoice::Texture(TextureId(1)));
}

#[test]
fn draws_get_offsets_rebinds_meshes_and_pipelines() {
    let mut s = BridgeState::new(256, 64);
    s.attach_surface(Extent2D { width: 8, height: 8 });
    s.create_resource(ResourceCreateDescriptor::Material(material(None, true))).unwrap();
    s.create_resource(ResourceCreateDescriptor::Material(material(None, false))).unwrap();
    s.create_resource(ResourceCreateDescriptor::Mesh(mesh(3))).unwrap();
    let instances = vec![
        DrawInstance { mesh: MeshId(1), material: MaterialId(1) },
        DrawInstance { mesh: MeshId(1), material: MaterialId(1) },
        DrawInstance { mesh: MeshId(1), material: MaterialId(2) },
    ];
    let list = draw_list(3, &vec![]);
    let plans = s.plan_draws(&instances, &list, true).unwrap();
    assert_eq!(plans.len(), 3);
    assert_eq!(plans.iter().map(|p| p.object_offset).collect::<Vec<_>>(), vec![0, 256, 512]);
    assert_eq!(plans.iter().map(|p| p.rebind_material).collect::<Vec<_>>(), vec![true, false, true]);
    assert_eq!(plans.iter().map(|p| p.pipeline.needs_build).collect::<Vec<_>>(), vec![true, false, true]);
    assert!(plans[0].pipeline.key.depth_enabled);
    assert!(!plans[2].pipeline.key.depth_enabled);
    assert_eq!(plans[0].index_count, 3);
    assert_eq!(plans[0].index_format, IndexFormat::Uint32);
    assert_eq!(plans[2].slot, 2);
    assert_eq!(plans[2].bind_group, BindGroupChoice::Fallback);
}

#[test]
fn draw_planning_stops_at_missing_mesh_keeping_earlier_lookups() {
    let mut s = BridgeState::new(256, 64);
    s.attach_surface(Extent2D { width: 8, height: 8 });
    s.create_resource(ResourceCreateDescriptor::Material(material(None, false))).unwrap();
    s.create_resource(ResourceCreateDescriptor::Mesh(mesh(3))).unwrap();
    let instances = vec![
        DrawInstance { mesh: MeshId(1), material: MaterialId(1) },
        DrawInstance { mesh: MeshId(4), material: MaterialId(1) },
    ];
    let e = s.plan_draws(&instances, &vec![0, 1], false).unwrap_err();
    assert!(matches!(e.kind, ErrorKind::ResourceNotFound("mesh")));
    assert_eq!(s.pipeline_cache.len(), 1);
}

#[test]
fn depth_targets_keep_their_key_size_and_stay_one_per_key() {
    let mut s = BridgeState::new(256, 64);
    s.attach_surface(Extent2D { width: 4, height: 4 });
    s.create_resource(ResourceCreateDescriptor::Texture(TextureDescriptor { width: 3, height: 2, format: ImageFormat::Rgba8Unorm, data: vec![0; 24] })).unwrap();
    let sw = pass(PassColorTarget::Swapchain, DepthAttachmentLoad::Clear, vec![]);
    let tex = pass(PassColorTarget::Texture(TextureId(1)), DepthAttachmentLoad::Clear, vec![]);
    for _ in 0..3 {
        s.ensure_depth_target(&sw).unwrap();
        s.ensure_depth_target(&tex).unwrap();
    }
    assert_eq!(s.depth_targets.len(), 2);
    for t in &s.depth_targets {
        match t.key {
            DepthTargetKey::Swapchain { width, height } => assert_eq!((t.width, t.height), (width, height)),
            DepthTargetKey::Texture(id) => {
                let texture = s.resources.textures.get(&id.0).unwrap();
                assert_eq!((t.width, t.height), (texture.width, texture.height));
            }
        }
    }
}

#[test]
fn repeated_draw_planning_caches_each_pipeline_once() {
    let mut s = BridgeState::new(256, 64);
    s.attach_surface(Extent2D { width: 4, height: 4 });
    s.create_resource(ResourceCreateDescriptor::Mesh(mesh(3))).unwrap();
    s.create_resource(ResourceCreateDescriptor::Material(material(None, true))).unwrap();
    let instances = vec![
        DrawInstance { mesh: MeshId(1), material: MaterialId(1) },
        DrawInstance { mesh: MeshId(1), material: MaterialId(1) },
    ];
    s.plan_draws(&instances, &vec![0, 1], true).unwrap();
    s.plan_draws(&instances, &vec![1, 0], false).unwrap();
    s.plan_draws(&instances, &vec![0], true).unwrap();
    assert_eq!(s.pipeline_cache.len(), 2);
    assert_ne!(s.pipeline_cache[0], s.pipeline_cache[1]);
}
