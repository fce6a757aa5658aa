use rotex_wgpu::descriptors::{
    CullMode, DeviceDescriptor, DeviceFeatures, Extent2D, InstanceDescriptor, MaterialDescriptor,
    QueueCategory, QueueRequest,
};
use rotex_wgpu::error::{ErrorKind, Severity};
use rotex_wgpu::init::{
    align_uniform_size, create_bridge_state, object_buffer_size, unsupported_feature_reporting,
    INITIAL_OBJECT_CAPACITY, OBJECT_MATRIX_SIZE,
};
use rotex_wgpu::registry::BridgeState;
use rotex_wgpu::shader::{culled_face, spirv_module_words, validate_material_descriptor, CulledFace};
use rotex_wgpu::surface::{
    acquire_exhausted_error, check_adapter_features, check_device_descriptor,
    check_instance_descriptor, choose_swapchain, create_swapchain, AcquireAction, DeviceRequest,
    PresentMode, SurfaceAcquire, SurfaceStatus,
};

fn material() -> MaterialDescriptor {
    MaterialDescriptor {
        vertex_shader_spv: vec![0; 8],
        fragment_shader_spv: vec![0; 4],
        vertex_entry: "vs".to_string(),
        fragment_entry: "fs".to_string(),
        enable_depth: false,
        cull_mode: CullMode::Front,
        texture: None,
    }
}

#[test]
fn material_validation_order() {
    assert!(validate_material_descriptor(&material()).is_ok());
    let mut m = material();
    m.fragment_shader_spv = vec![];
    m.vertex_entry = String::new();
    assert!(matches!(validate_material_descriptor(&m).unwrap_err().kind, ErrorKind::InvalidDescriptor("material_shader_bytes_missing")));
    let mut m = material();
    m.fragment_entry = String::new();
    m.vertex_shader_spv = vec![1; 5];
    assert!(matches!(validate_material_descriptor(&m).unwrap_err().kind, ErrorKind::InvalidDescriptor("material_shader_entry_missing")));
    let mut m = material();
    m.vertex_shader_spv = vec![1; 5];
    assert!(matches!(validate_material_descriptor(&m).unwrap_err().kind, ErrorKind::InvalidDescriptor("material_shader_bytes_not_word_aligned")));
}

#[test]
fn spirv_words_follow_the_magic_number_byte_order() {
    let le = [0x03u8, 0x02, 0x23, 0x07, 0x01, 0x02, 0x03, 0x04];
    assert_eq!(spirv_module_words(&le).unwrap(), vec![0x0723_0203, 0x0403_0201]);
    let be = [0x07u8, 0x23, 0x02, 0x03, 0x01, 0x02, 0x03, 0x04];
    assert_eq!(spirv_module_words(&be).unwrap(), vec![0x0723_0203, 0x0102_0304]);
    assert!(matches!(spirv_module_words(&[]).unwrap_err().kind, ErrorKind::InvalidDescriptor("material_shader_bytes_missing")));
    assert!(matches!(spirv_module_words(&[1, 2]).unwrap_err().kind, ErrorKind::InvalidDescriptor("material_shader_bytes_not_word_aligned")));
}

#[test]
fn instance_and_device_checks() {
    assert!(check_instance_descriptor(&InstanceDescriptor { required_instance_extensions: vec![] }).is_ok());
    let e = check_instance_descriptor(&InstanceDescriptor { required_instance_extensions: vec!["VK_x".to_string()] }).unwrap_err();
    assert!(matches!(e.kind, ErrorKind::Unsupported("required_instance_extensions_not_supported")));
    let good = DeviceDescriptor {
        enable_swapchain: true,
        required_features: DeviceFeatures { sampler_anisotropy: false, wide_lines: false, fill_mode_non_solid: true },
        queues: vec![QueueRequest { category: QueueCategory::Compute, count: 1 }, QueueRequest { category: QueueCategory::Graphics, count: 1 }],
    };
    assert_eq!(check_device_descriptor(&good).unwrap(), DeviceRequest { polygon_mode_line: true });
    let mut d = good.clone();
    d.enable_swapchain = false;
    d.required_features.wide_lines = true;
    assert!(matches!(check_device_descriptor(&d).unwrap_err().kind, ErrorKind::Unsupported("disable_swapchain_not_supported")));
    let mut d = good.clone();
    d.required_features.sampler_anisotropy = true;
    assert!(matches!(check_device_descriptor(&d).unwrap_err().kind, ErrorKind::Unsupported("sampler_anisotropy_not_supported")));
    let mut d = good.clone();
    d.required_features.wide_lines = true;
    assert!(matches!(check_device_descriptor(&d).unwrap_err().kind, ErrorKind::Unsupported("wide_lines_not_supported")));
    let mut d = good.clone();
    d.queues = vec![QueueRequest { category: QueueCategory::Graphics, count: 0 }];
    assert!(matches!(check_device_descriptor(&d).unwrap_err().kind, ErrorKind::Unsupported("graphics_queue_required")));
    assert!(check_adapter_features(DeviceRequest { polygon_mode_line: true }, true).is_ok());
    assert!(check_adapter_features(DeviceRequest { polygon_mode_line: false }, false).is_ok());
    let e = check_adapter_features(DeviceRequest { polygon_mode_line: true }, false).unwrap_err();
    assert!(matches!(e.kind, ErrorKind::Unsupported("required_device_features_unavailable")));
}

#[test]
fn swapchain_choice_prefers_srgb_mailbox_then_fifo() {
    let c = choose_swapchain(&vec![false, true, true], &vec![PresentMode::Fifo, PresentMode::Mailbox], 2, 0, 9).unwrap();
    assert_eq!((c.format_index, c.present_mode, c.alpha_mode_index, c.width, c.height), (1, PresentMode::Mailbox, 0, 1, 9));
    let c = choose_swapchain(&vec![false, false], &vec![PresentMode::Immediate, PresentMode::Fifo], 1, 3, 4).unwrap();
    assert_eq!((c.format_index, c.present_mode), (0, PresentMode::Fifo));
    let c = choose_swapchain(&vec![false], &vec![PresentMode::Immediate, PresentMode::AutoVsync], 1, 3, 4).unwrap();
    assert_eq!(c.present_mode, PresentMode::Immediate);
    for (srgb, modes, alpha) in [(vec![], vec![PresentMode::Fifo], 1usize), (vec![true], vec![], 1), (vec![true], vec![PresentMode::Fifo], 0)] {
        let e = choose_swapchain(&srgb, &modes, alpha, 1, 1).unwrap_err();
        assert!(matches!(e.kind, ErrorKind::NoCompatibleDevice));
        assert_eq!(e.severity, Severity::Fatal);
    }
}

#[test]
fn swapchain_format_is_classified_by_wgpu() {
    let formats = vec![wgpu::TextureFormat::Bgra8Unorm, wgpu::TextureFormat::Bgra8UnormSrgb];
    let c = create_swapchain(&formats, &vec![PresentMode::Fifo], 1, 5, 5).unwrap();
    assert_eq!(c.format_index, 1);
    let plain = vec![wgpu::TextureFormat::Rgba16Float, wgpu::TextureFormat::Bgra8Unorm];
    assert_eq!(create_swapchain(&plain, &vec![PresentMode::Fifo], 1, 5, 5).unwrap().format_index, 0);
}

#[test]
fn acquisition_is_tried_at_most_twice() {
    let mut a = SurfaceAcquire::new();
    assert!(a.may_try());
    assert_eq!(a.record(SurfaceStatus::Outdated), AcquireAction::Reconfigure);
    assert!(a.may_try());
    assert_eq!(a.record(SurfaceStatus::Lost), AcquireAction::Reconfigure);
    assert!(!a.may_try());
    let e = acquire_exhausted_error();
    assert!(matches!(e.kind, ErrorKind::SurfaceOutdated));
    assert_eq!(e.severity, Severity::Recoverable);
    let mut b = SurfaceAcquire::new();
    assert_eq!(b.record(SurfaceStatus::Suboptimal), AcquireAction::UseTexture);
    assert_eq!(SurfaceAcquire::new().record(SurfaceStatus::Success), AcquireAction::UseTexture);
    for s in [SurfaceStatus::Timeout, SurfaceStatus::Occluded, SurfaceStatus::Validation] {
        assert_eq!(SurfaceAcquire::new().record(s), AcquireAction::SkipFrame);
    }
}

#[test]
fn attaching_and_resizing_reset_caches() {
    let mut s = BridgeState::new(256, 64);
    let e = s.resize(Extent2D { width: 3, height: 3 }).unwrap_err();
    assert!(matches!(e.kind, ErrorKind::SurfaceNotAttached));
    assert!(s.swapchain.is_none());
    assert!(matches!(s.swapchain_extent().unwrap_err().kind, ErrorKind::SurfaceNotAttached));
    s.attach_surface(Extent2D { width: 0, height: 0 });
    assert!(s.surface_attached);
    assert_eq!(s.swapchain_extent().unwrap(), Extent2D { width: 1, height: 1 });
    s.resize(Extent2D { width: 640, height: 0 }).unwrap();
    assert_eq!(s.swapchain, Some(Extent2D { width: 640, height: 1 }));
    assert!(s.pipeline_cache.is_empty() && s.depth_targets.is_empty());
    s.reconfigure_surface(Extent2D { width: 2, height: 2 }).unwrap();
    assert_eq!(s.swapchain, Some(Extent2D { width: 2, height: 2 }));
}

#[test]
fn initial_state_and_uniform_layout() {
    assert_eq!(align_uniform_size(OBJECT_MATRIX_SIZE, 256), 256);
    assert_eq!(align_uniform_size(OBJECT_MATRIX_SIZE, 0), 64);
    assert_eq!(align_uniform_size(100, 64), 128);
    let s = create_bridge_state(256);
    assert_eq!(s.object_aligned_stride, 256);
    assert_eq!(s.object_buffer_capacity, INITIAL_OBJECT_CAPACITY);
    assert_eq!(object_buffer_size(&s), 256 * INITIAL_OBJECT_CAPACITY as u64);
    assert_eq!((s.next_mesh_id, s.next_material_id, s.next_texture_id), (1, 1, 1));
    assert!(!s.surface_attached);
    let notes = unsupported_feature_reporting();
    assert_eq!(notes.len(), 4);
    assert!(notes[2].starts_with("TextureFormat::Rgba8UnormSrgb is unavailable"));
}

#[test]
fn cull_mode_names_the_culled_face() {
    assert_eq!(culled_face(CullMode::Disabled), None);
    assert_eq!(culled_face(CullMode::Front), Some(CulledFace::Front));
    assert_eq!(culled_face(CullMode::Back), Some(CulledFace::Back));
}
