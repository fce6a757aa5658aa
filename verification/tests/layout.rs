use rotex_wgpu::descriptors::{
    ImageFormat, IndexFormat, MeshDescriptor, VertexAttribute, VertexBufferLayout, VertexFormat,
};
use rotex_wgpu::error::{ErrorKind, Severity};
use rotex_wgpu::layout::{
    bytes_per_pixel, create_mesh_record, hash_vertex_layout, index_format_size,
    translate_vertex_layout, vertex_format_size, vertex_format_tag,
};
use std::hash::{DefaultHasher, Hasher};

fn attr(format: VertexFormat, offset: u64, location: u32) -> VertexAttribute {
    VertexAttribute { format, offset, location }
}

fn mesh(stride: u64, attributes: Vec<VertexAttribute>, vertex_len: usize) -> MeshDescriptor {
    MeshDescriptor {
        vertex_data: vec![0u8; vertex_len],
        vertex_layout: VertexBufferLayout { array_stride: stride, attributes },
        index_data: vec![0u8; 6],
        index_format: IndexFormat::Uint16,
        index_count: 3,
    }
}

fn layout_error(m: &MeshDescriptor) -> ErrorKind {
    let e = translate_vertex_layout(m).unwrap_err();
    assert_eq!(e.severity, Severity::Recoverable);
    e.kind
}

#[test]
fn format_sizes_and_tags() {
    assert_eq!(vertex_format_size(VertexFormat::Float32), 4);
    assert_eq!(vertex_format_size(VertexFormat::Float32x2), 8);
    assert_eq!(vertex_format_size(VertexFormat::Float32x3), 12);
    assert_eq!(vertex_format_size(VertexFormat::Float32x4), 16);
    assert_eq!(vertex_format_size(VertexFormat::Uint32), 4);
    assert_eq!(index_format_size(IndexFormat::Uint16), 2);
    assert_eq!(index_format_size(IndexFormat::Uint32), 4);
    assert_eq!(bytes_per_pixel(ImageFormat::Rgba8Unorm), 4);
    assert_eq!(vertex_format_tag(VertexFormat::Float32), 0);
    assert_eq!(vertex_format_tag(VertexFormat::Uint32), 4);
}

#[test]
fn translate_vertex_layout_rejects_bad_layouts() {
    assert!(matches!(layout_error(&mesh(0, vec![attr(VertexFormat::Float32, 0, 0)], 8)), ErrorKind::InvalidDescriptor("vertex_layout_zero_stride")));
    assert!(matches!(layout_error(&mesh(8, vec![], 8)), ErrorKind::InvalidDescriptor("vertex_layout_missing_attributes")));
    assert!(matches!(layout_error(&mesh(8, vec![attr(VertexFormat::Float32, 0, 0)], 12)), ErrorKind::InvalidDescriptor("vertex_data_stride_mismatch")));
    assert!(matches!(layout_error(&mesh(8, vec![attr(VertexFormat::Float32, u64::MAX - 1, 0)], 8)), ErrorKind::InvalidDescriptor("vertex_attribute_overflow")));
    assert!(matches!(layout_error(&mesh(8, vec![attr(VertexFormat::Float32x3, 0, 0)], 8)), ErrorKind::InvalidDescriptor("vertex_attribute_out_of_bounds")));
    assert!(matches!(layout_error(&mesh(8, vec![attr(VertexFormat::Float32, 0, 1), attr(VertexFormat::Float32, 4, 1)], 8)), ErrorKind::InvalidDescriptor("vertex_attribute_duplicate_location")));
}

#[test]
fn translate_vertex_layout_reports_first_fault_in_order() {
    // The out-of-bounds attribute comes before the duplicate.
    let m = mesh(8, vec![attr(VertexFormat::Float32, 0, 1), attr(VertexFormat::Float32x4, 0, 2), attr(VertexFormat::Float32, 4, 1)], 16);
    assert!(matches!(layout_error(&m), ErrorKind::InvalidDescriptor("vertex_attribute_out_of_bounds")));
}

#[test]
fn translate_vertex_layout_keeps_stride_and_attributes() {
    let attrs = vec![attr(VertexFormat::Float32x3, 0, 0), attr(VertexFormat::Float32x2, 12, 1)];
    let m = mesh(20, attrs.clone(), 40);
    let l = translate_vertex_layout(&m).unwrap();
    assert_eq!(l.array_stride, 20);
    assert_eq!(l.attributes, attrs);
}

#[test]
fn create_mesh_record_checks_in_order() {
    let good = mesh(8, vec![attr(VertexFormat::Float32x2, 0, 0)], 16);
    let mut m = good.clone();
    m.index_count = 0;
    m.index_data = vec![];
    assert!(matches!(create_mesh_record(&m).unwrap_err().kind, ErrorKind::InvalidDescriptor("mesh_missing_indices")));
    let mut m = good.clone();
    m.index_data = vec![];
    m.vertex_data = vec![];
    assert!(matches!(create_mesh_record(&m).unwrap_err().kind, ErrorKind::InvalidDescriptor("mesh_missing_index_data")));
    let mut m = good.clone();
    m.vertex_data = vec![];
    assert!(matches!(create_mesh_record(&m).unwrap_err().kind, ErrorKind::InvalidDescriptor("mesh_missing_vertex_data")));
    let mut m = good.clone();
    m.index_format = IndexFormat::Uint32;
    assert!(matches!(create_mesh_record(&m).unwrap_err().kind, ErrorKind::InvalidDescriptor("mesh_index_data_size_mismatch")));
    let mut m = good.clone();
    m.vertex_layout.array_stride = 0;
    assert!(matches!(create_mesh_record(&m).unwrap_err().kind, ErrorKind::InvalidDescriptor("vertex_layout_zero_stride")));
}

#[test]
fn create_mesh_record_keeps_draw_inputs() {
    let m = mesh(8, vec![attr(VertexFormat::Float32x2, 0, 0)], 16);
    let r = create_mesh_record(&m).unwrap();
    assert_eq!(r.index_count, 3);
    assert_eq!(r.index_format, IndexFormat::Uint16);
    assert_eq!(r.vertex_layout.array_stride, 8);
    assert_eq!(r.vertex_layout.attributes, m.vertex_layout.attributes);
    assert_eq!(r.vertex_layout_id, hash_vertex_layout(&m.vertex_layout));
}

#[test]
fn layout_hash_is_the_default_hasher_over_le_writes() {
    let layout = VertexBufferLayout {
        array_stride: 24,
        attributes: vec![attr(VertexFormat::Float32x3, 0, 0), attr(VertexFormat::Float32x3, 12, 1)],
    };
    let mut h = DefaultHasher::new();
    h.write(&24u64.to_le_bytes());
    for a in &layout.attributes {
        h.write(&a.location.to_le_bytes());
        h.write(&a.offset.to_le_bytes());
        h.write(&[vertex_format_tag(a.format)]);
    }
    assert_eq!(hash_vertex_layout(&layout), h.finish());
    let same = layout.clone();
    assert_eq!(hash_vertex_layout(&layout), hash_vertex_layout(&same));
}
