//! Vertex layouts and meshes: format sizes, layout validation, the stable
//! layout hash used as a pipeline-cache key, and mesh validation.

use std::collections::HashSet;
use std::hash::DefaultHasher;
use std::hash::Hasher;
use vstd::prelude::*;
use vstd::bytes::spec_u32_to_le_bytes;
use vstd::bytes::spec_u64_to_le_bytes;
use vstd::std_specs::hash::DefaultHasherAdditionalSpecFns;

use crate::descriptors::{
    vertex_format_bytes, IndexFormat, MeshDescriptor, ImageFormat, VertexAttribute,
    VertexBufferLayout, VertexFormat,
};
use crate::error::{recoverable_error, Error, ErrorKind};

verus! {

broadcast use {
    vstd::std_specs::hash::group_hash_axioms,
};

/// Returns the byte size of `format`.
pub fn vertex_format_size(format: VertexFormat) -> (r: u64)
    ensures
        r == vertex_format_bytes(format),
{
    format.size()
}

/// Number of bytes of one index of `format`.
pub open spec fn index_format_bytes(format: IndexFormat) -> usize {
    match format {
        IndexFormat::Uint16 => 2,
        IndexFormat::Uint32 => 4,
    }
}

/// Returns the byte size of one index element for `format`.
pub fn index_format_size(format: IndexFormat) -> (r: usize)
    ensures
        r == index_format_bytes(format),
{
    match format {
        IndexFormat::Uint16 => 2,
        IndexFormat::Uint32 => 4,
    }
}

/// Number of bytes of one texel of `format`.
pub open spec fn texel_bytes(format: ImageFormat) -> u32 {
    match format {
        ImageFormat::Rgba8Unorm => 4,
    }
}

/// Returns the number of bytes per texel for `format`.
pub fn bytes_per_pixel(format: ImageFormat) -> (r: u32)
    ensures
        r == texel_bytes(format),
{
    match format {
        ImageFormat::Rgba8Unorm => 4,
    }
}

/// Tag byte of `format` in the layout hash.
pub open spec fn format_tag(format: VertexFormat) -> u8 {
    match format {
        VertexFormat::Float32 => 0,
        VertexFormat::Float32x2 => 1,
        VertexFormat::Float32x3 => 2,
        VertexFormat::Float32x4 => 3,
        VertexFormat::Uint32 => 4,
    }
}

/// Returns the tag byte of `format` in the layout hash.
pub fn vertex_format_tag(format: VertexFormat) -> (r: u8)
    ensures
        r == format_tag(format),
{
    match format {
        VertexFormat::Float32 => 0,
        VertexFormat::Float32x2 => 1,
        VertexFormat::Float32x3 => 2,
        VertexFormat::Float32x4 => 3,
        VertexFormat::Uint32 => 4,
    }
}

/// The writes fed to the hasher for a layout: the stride, then for each
/// attribute its location, offset and format tag, integers little-endian.
pub open spec fn layout_hash_writes(stride: u64, attributes: Seq<VertexAttribute>) -> Seq<Seq<u8>>
    decreases attributes.len(),
{
    if attributes.len() == 0 {
        seq![spec_u64_to_le_bytes(stride)]
    } else {
        let a = attributes.last();
        layout_hash_writes(stride, attributes.drop_last()) + seq![
            spec_u32_to_le_bytes(a.location),
            spec_u64_to_le_bytes(a.offset),
            seq![format_tag(a.format)],
        ]
    }
}

/// The stable identifier of a vertex layout: the default hasher's digest of
/// [`layout_hash_writes`].
pub open spec fn layout_hash(stride: u64, attributes: Seq<VertexAttribute>) -> u64 {
    DefaultHasher::spec_finish(layout_hash_writes(stride, attributes))
}

/// Hashes a vertex layout into the identifier that pipeline-cache keys use.
pub fn hash_vertex_layout(layout: &VertexBufferLayout) -> (r: u64)
    ensures
        r == layout_hash(layout.array_stride, layout.attributes@),
{
    let mut hasher = DefaultHasher::new();
    let stride_bytes = vstd::bytes::u64_to_le_bytes(layout.array_stride);
    hasher.write(stride_bytes.as_slice());
    let n = layout.attributes.len();
    assert(layout.attributes@.take(0) =~= Seq::<VertexAttribute>::empty());
    for i in 0..n
        invariant
            n == layout.attributes@.len(),
            hasher@ == layout_hash_writes(layout.array_stride, layout.attributes@.take(i as int)),
    {
        let a = layout.attributes[i];
        let location_bytes = vstd::bytes::u32_to_le_bytes(a.location);
        hasher.write(location_bytes.as_slice());
        let offset_bytes = vstd::bytes::u64_to_le_bytes(a.offset);
        hasher.write(offset_bytes.as_slice());
        let tag_bytes = vec![vertex_format_tag(a.format)];
        hasher.write(tag_bytes.as_slice());
        proof {
            let prefix = layout.attributes@.take(i + 1);
            assert(prefix.drop_last() =~= layout.attributes@.take(i as int));
            assert(prefix.last() == a);
            assert(tag_bytes@ =~= seq![format_tag(a.format)]);
            assert(hasher@ =~= layout_hash_writes(layout.array_stride, prefix));
        }
    }
    assert(layout.attributes@.take(n as int) =~= layout.attributes@);
    hasher.finish()
}

/// The fault of attribute `i`, given the attributes before it: its end
/// overflowing, lying past the stride, or reusing an earlier location.
pub open spec fn attribute_fault(attributes: Seq<VertexAttribute>, stride: u64, i: int) -> Option<ErrorKind> {
    let a = attributes[i];
    let end = a.offset + vertex_format_bytes(a.format);
    if end > u64::MAX {
        Some(ErrorKind::InvalidDescriptor("vertex_attribute_overflow"))
    } else if end > stride {
        Some(ErrorKind::InvalidDescriptor("vertex_attribute_out_of_bounds"))
    } else if exists|j: int| 0 <= j < i && #[trigger] attributes[j].location == a.location {
        Some(ErrorKind::InvalidDescriptor("vertex_attribute_duplicate_location"))
    } else {
        None
    }
}

/// The first fault among the first `n` attributes, checked in order.
pub open spec fn first_attribute_fault(attributes: Seq<VertexAttribute>, stride: u64, n: nat) -> Option<ErrorKind>
    decreases n,
{
    if n == 0 {
        None
    } else {
        match first_attribute_fault(attributes, stride, (n - 1) as nat) {
            Some(k) => Some(k),
            None => attribute_fault(attributes, stride, n - 1),
        }
    }
}

/// Once a fault is found among the first `k` attributes, it stays the first
/// fault of every longer prefix.
pub proof fn lemma_first_fault_persists(attributes: Seq<VertexAttribute>, stride: u64, k: nat, m: nat)
    requires
        k <= m,
    ensures
        first_attribute_fault(attributes, stride, k) is Some ==> first_attribute_fault(attributes, stride, m)
            == first_attribute_fault(attributes, stride, k),
    decreases m - k,
{
    if k < m {
        lemma_first_fault_persists(attributes, stride, k, (m - 1) as nat);
    }
}

/// The fault of a vertex layout for `vertex_len` bytes of vertex data, if any.
pub open spec fn vertex_layout_fault(vertex_len: nat, layout: VertexBufferLayout) -> Option<ErrorKind> {
    if layout.array_stride == 0 {
        Some(ErrorKind::InvalidDescriptor("vertex_layout_zero_stride"))
    } else if layout.attributes@.len() == 0 {
        Some(ErrorKind::InvalidDescriptor("vertex_layout_missing_attributes"))
    } else if vertex_len % (layout.array_stride as nat) != 0 {
        Some(ErrorKind::InvalidDescriptor("vertex_data_stride_mismatch"))
    } else {
        first_attribute_fault(layout.attributes@, layout.array_stride, layout.attributes@.len())
    }
}

/// Validates the vertex layout of `mesh` against its vertex data and returns
/// the translated layout: the same stride and attributes, in order.
pub fn translate_vertex_layout(mesh: &MeshDescriptor) -> (r: Result<VertexBufferLayout, Error>)
    ensures
        match vertex_layout_fault(mesh.vertex_data@.len(), mesh.vertex_layout) {
            Some(k) => r == Err::<VertexBufferLayout, Error>(recoverable_error(k)),
            None => r matches Ok(l) && l.array_stride == mesh.vertex_layout.array_stride
                && l.attributes@ == mesh.vertex_layout.attributes@,
        },
{
    let layout = &mesh.vertex_layout;
    if layout.array_stride == 0 {
        return Err(Error::recoverable(ErrorKind::InvalidDescriptor("vertex_layout_zero_stride")));
    }
    if layout.attributes.len() == 0 {
        return Err(
            Error::recoverable(ErrorKind::InvalidDescriptor("vertex_layout_missing_attributes")),
        );
    }
    let vertex_len = mesh.vertex_data.len() as u64;
    if vertex_len % layout.array_stride != 0 {
        return Err(Error::recoverable(ErrorKind::InvalidDescriptor("vertex_data_stride_mismatch")));
    }
    let ghost attrs = layout.attributes@;
    let ghost stride = layout.array_stride;
    let n = layout.attributes.len();
    let mut locations: HashSet<u32> = HashSet::with_capacity(n);
    let mut translated: Vec<VertexAttribute> = Vec::with_capacity(n);
    for i in 0..n
        invariant
            n == attrs.len(),
            attrs == mesh.vertex_layout.attributes@,
            stride == mesh.vertex_layout.array_stride,
            first_attribute_fault(attrs, stride, i as nat) is None,
            vertex_layout_fault(mesh.vertex_data@.len(), mesh.vertex_layout)
                == first_attribute_fault(attrs, stride, n as nat),
            translated@ == attrs.take(i as int),
            forall|l: u32| #[trigger] locations@.contains(l) <==> exists|j: int| 0 <= j < i && attrs[j].location == l,
    {
        let attribute = mesh.vertex_layout.attributes[i];
        proof {
            lemma_first_fault_persists(attrs, stride, (i + 1) as nat, n as nat);
            assert(attribute == attrs[i as int]);
        }
        let size = vertex_format_size(attribute.format);
        let end = match attribute.offset.checked_add(size) {
            Some(end) => end,
            None => {
                return Err(
                    Error::recoverable(ErrorKind::InvalidDescriptor("vertex_attribute_overflow")),
                );
            },
        };
        if end > mesh.vertex_layout.array_stride {
            return Err(
                Error::recoverable(ErrorKind::InvalidDescriptor("vertex_attribute_out_of_bounds")),
            );
        }
        if !locations.insert(attribute.location) {
            proof {
                let j = choose|j: int| 0 <= j < i && attrs[j].location == attribute.location;
                assert(attrs[j].location == attrs[i as int].location);
            }
            return Err(
                Error::recoverable(
                    ErrorKind::InvalidDescriptor("vertex_attribute_duplicate_location"),
                ),
            );
        }
        translated.push(attribute);
        proof {
            assert(translated@ =~= attrs.take(i + 1));
            assert forall|l: u32| #[trigger] locations@.contains(l) <==> exists|j: int| 0 <= j < i + 1 && attrs[j].location == l by {
                if locations@.contains(l) && l != attribute.location {
                    let j = choose|j: int| 0 <= j < i && attrs[j].location == l;
                    assert(0 <= j < i + 1 && attrs[j].location == l);
                }
                if l == attribute.location {
                    assert(attrs[i as int].location == l);
                }
            }
        }
    }
    assert(translated@ =~= attrs);
    Ok(VertexBufferLayout { array_stride: layout.array_stride, attributes: translated })
}

} // verus!

verus! {

/// What the bridge keeps of an uploaded mesh besides its GPU buffers.
#[derive(Debug)]
pub struct MeshRecord {
    /// Element format of the index buffer.
    pub index_format: IndexFormat,
    /// Number of indices to draw.
    pub index_count: u32,
    /// Stable hash of the source vertex layout.
    pub vertex_layout_id: u64,
    /// Validated vertex layout used when building pipelines.
    pub vertex_layout: VertexBufferLayout,
}

/// Abstract contents of a [`MeshRecord`].
pub struct MeshRecordView {
    pub index_format: IndexFormat,
    pub index_count: u32,
    pub vertex_layout_id: u64,
    pub array_stride: u64,
    pub attributes: Seq<VertexAttribute>,
}

impl View for MeshRecord {
    type V = MeshRecordView;

    open spec fn view(&self) -> MeshRecordView {
        MeshRecordView {
            index_format: self.index_format,
            index_count: self.index_count,
            vertex_layout_id: self.vertex_layout_id,
            array_stride: self.vertex_layout.array_stride,
            attributes: self.vertex_layout.attributes@,
        }
    }
}

/// The record kept for a valid mesh.
pub open spec fn mesh_record_of(mesh: MeshDescriptor) -> MeshRecordView {
    MeshRecordView {
        index_format: mesh.index_format,
        index_count: mesh.index_count,
        vertex_layout_id: layout_hash(mesh.vertex_layout.array_stride, mesh.vertex_layout.attributes@),
        array_stride: mesh.vertex_layout.array_stride,
        attributes: mesh.vertex_layout.attributes@,
    }
}

/// The first fault of a mesh descriptor, checked in order: no indices, no
/// index bytes, no vertex bytes, index byte size overflowing `usize`, index
/// bytes not matching the count, then the vertex layout's faults.
pub open spec fn mesh_fault(mesh: MeshDescriptor) -> Option<ErrorKind> {
    let expected = mesh.index_count * index_format_bytes(mesh.index_format);
    if mesh.index_count == 0 {
        Some(ErrorKind::InvalidDescriptor("mesh_missing_indices"))
    } else if mesh.index_data@.len() == 0 {
        Some(ErrorKind::InvalidDescriptor("mesh_missing_index_data"))
    } else if mesh.vertex_data@.len() == 0 {
        Some(ErrorKind::InvalidDescriptor("mesh_missing_vertex_data"))
    } else if expected > usize::MAX {
        Some(ErrorKind::InvalidDescriptor("index_size_overflow"))
    } else if mesh.index_data@.len() != expected {
        Some(ErrorKind::InvalidDescriptor("mesh_index_data_size_mismatch"))
    } else {
        vertex_layout_fault(mesh.vertex_data@.len(), mesh.vertex_layout)
    }
}

/// Validates a mesh descriptor and builds the record the bridge keeps for it.
pub fn create_mesh_record(mesh: &MeshDescriptor) -> (r: Result<MeshRecord, Error>)
    ensures
        match mesh_fault(*mesh) {
            Some(k) => r == Err::<MeshRecord, Error>(recoverable_error(k)),
            None => r matches Ok(rec) && rec@ == mesh_record_of(*mesh),
        },
{
    if mesh.index_count == 0 {
        return Err(Error::recoverable(ErrorKind::InvalidDescriptor("mesh_missing_indices")));
    }
    if mesh.index_data.len() == 0 {
        return Err(Error::recoverable(ErrorKind::InvalidDescriptor("mesh_missing_index_data")));
    }
    if mesh.vertex_data.len() == 0 {
        return Err(Error::recoverable(ErrorKind::InvalidDescriptor("mesh_missing_vertex_data")));
    }
    let index_stride = index_format_size(mesh.index_format);
    let expected_index_len = match (mesh.index_count as usize).checked_mul(index_stride) {
        Some(len) => len,
        None => {
            return Err(Error::recoverable(ErrorKind::InvalidDescriptor("index_size_overflow")));
        },
    };
    if mesh.index_data.len() != expected_index_len {
        return Err(
            Error::recoverable(ErrorKind::InvalidDescriptor("mesh_index_data_size_mismatch")),
        );
    }
    let vertex_layout = translate_vertex_layout(mesh)?;
    let vertex_layout_id = hash_vertex_layout(&mesh.vertex_layout);
    Ok(MeshRecord {
        index_format: mesh.index_format,
        index_count: mesh.index_count,
        vertex_layout_id,
        vertex_layout,
    })
}

} // verus!
