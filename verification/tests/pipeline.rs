use rotex_wgpu::descriptors::{
    CullMode, Extent2D, IndexFormat, MaterialDescriptor, MaterialId, MeshDescriptor, MeshId,
    ResourceCreateDescriptor, VertexAttribute, VertexBufferLayout, VertexFormat,
};
use rotex_wgpu::error::{ErrorKind, Severity};
use rotex_wgpu::frame::object_uniform_bytes;
use rotex_wgpu::pipeline::plan_render_pipeline;
use rotex_wgpu::registry::{BridgeState, MaterialPipelineKey};
use rotex_wgpu::shader::CulledFace;

fn material(vertex: Vec<u8>, fragment: Vec<u8>) -> MaterialDescriptor {
    MaterialDescriptor {
        vertex_shader_spv: vertex,
        fragment_shader_spv: fragment,
        vertex_entry: "vs_main".to_string(),
        fragment_entry: "fs_main".to_string(),
        enable_depth: true,
        cull_mode: CullMode::Back,
        texture: None,
    }
}

fn mesh() -> MeshDescriptor {
    MeshDescriptor {
        vertex_data: vec![0u8; 24],
        vertex_layout: VertexBufferLayout {
            array_stride: 12,
            attributes: vec![VertexAttribute { format: VertexFormat::Float32x3, offset: 0, location: 0 }],
        },
        index_data: vec![0u8; 6],
        index_format: IndexFormat::Uint16,
        index_count: 3,
    }
}

fn key(depth_enabled: bool) -> MaterialPipelineKey {
    MaterialPipelineKey { material_id: MaterialId(1), vertex_layout_id: 7, depth_enabled }
}

const LE_MODULE: [u8; 8] = [0x03, 0x02, 0x23, 0x07, 0x01, 0x00, 0x00, 0x00];
const BE_MODULE: [u8; 8] = [0x07, 0x23, 0x02, 0x03, 0x00, 0x00, 0x00, 0x02];

#[test]
fn render_pipeline_checks_surface_material_mesh_then_shaders() {
    let mut s = BridgeState::new(256, 64);
    let e = plan_render_pipeline(&s, key(false), MeshId(1)).unwrap_err();
    assert_eq!(e.severity, Severity::Fatal);
    assert!(matches!(e.kind, ErrorKind::SurfaceNotAttached));
    s.attach_surface(Extent2D { width: 8, height: 8 });
    let e = plan_render_pipeline(&s, key(false), MeshId(1)).unwrap_err();
    assert_eq!(e.severity, Severity::Recoverable);
    assert!(matches!(e.kind, ErrorKind::ResourceNotFound("material")));
    s.create_resource(ResourceCreateDescriptor::Material(material(LE_MODULE.to_vec(), BE_MODULE.to_vec()))).unwrap();
    let e = plan_render_pipeline(&s, key(false), MeshId(1)).unwrap_err();
    assert!(matches!(e.kind, ErrorKind::ResourceNotFound("mesh")));
}

#[test]
fn render_pipeline_refuses_unaligned_stored_shader_bytes() {
    let mut s = BridgeState::new(256, 64);
    s.attach_surface(Extent2D { width: 8, height: 8 });
    s.create_resource(ResourceCreateDescriptor::Mesh(mesh())).unwrap();
    s.create_resource(ResourceCreateDescriptor::Material(material(LE_MODULE.to_vec(), BE_MODULE.to_vec()))).unwrap();
    s.resources.materials.get_mut(&1).unwrap().fragment_shader_spv = vec![1, 2, 3];
    let e = plan_render_pipeline(&s, key(false), MeshId(1)).unwrap_err();
    assert!(matches!(e.kind, ErrorKind::InvalidDescriptor("material_shader_bytes_not_word_aligned")));
    s.resources.materials.get_mut(&1).unwrap().vertex_shader_spv = vec![];
    let e = plan_render_pipeline(&s, key(false), MeshId(1)).unwrap_err();
    assert!(matches!(e.kind, ErrorKind::InvalidDescriptor("material_shader_bytes_missing")));
}

#[test]
fn render_pipeline_plan_carries_stages_layout_culling_and_depth() {
    let mut s = BridgeState::new(256, 64);
    s.attach_surface(Extent2D { width: 8, height: 8 });
    s.create_resource(ResourceCreateDescriptor::Mesh(mesh())).unwrap();
    s.create_resource(ResourceCreateDescriptor::Material(material(LE_MODULE.to_vec(), BE_MODULE.to_vec()))).unwrap();
    let plan = plan_render_pipeline(&s, key(true), MeshId(1)).unwrap();
    assert_eq!(plan.key, key(true));
    assert_eq!(plan.mesh, MeshId(1));
    assert_eq!(plan.vertex_words, vec![0x0723_0203, 1]);
    assert_eq!(plan.fragment_words, vec![0x0723_0203, 2]);
    assert_eq!(plan.vertex_entry, "vs_main");
    assert_eq!(plan.fragment_entry, "fs_main");
    assert_eq!(plan.array_stride, 12);
    assert_eq!(plan.attributes, vec![VertexAttribute { format: VertexFormat::Float32x3, offset: 0, location: 0 }]);
    assert_eq!(plan.culled_face, Some(CulledFace::Back));
    assert!(plan.depth_test);
    assert!(!plan_render_pipeline(&s, key(false), MeshId(1)).unwrap().depth_test);
}

#[test]
fn object_blocks_sit_one_stride_apart_with_zero_padding() {
    let mut blocks = vec![1u8; 64];
    blocks.extend(vec![2u8; 64]);
    let bytes = object_uniform_bytes(&blocks, 80);
    assert_eq!(bytes.len(), 160);
    assert!(bytes[..64].iter().all(|b| *b == 1));
    assert!(bytes[64..80].iter().all(|b| *b == 0));
    assert!(bytes[80..144].iter().all(|b| *b == 2));
    assert!(bytes[144..].iter().all(|b| *b == 0));
    assert_eq!(object_uniform_bytes(&blocks, 64), blocks);
    assert!(object_uniform_bytes(&vec![], 0).is_empty());
}
