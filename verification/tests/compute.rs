use rotex_wgpu::compute::BindingPlan;
use rotex_wgpu::descriptors::{
    BufferId, BufferUsageIntent, ComputeBindingLayout, ComputePassDescriptor, ComputePipelineDescriptor,
    ComputePipelineId,
};
use rotex_wgpu::error::ErrorKind;
use rotex_wgpu::registry::{BridgeState, BufferRecord, ComputePipelineRecord};
use rotex_wgpu::shader::{build_bind_group_layouts, create_compute_pipeline};

fn intent(set: u32, binding: u32, buffer: u64, offset: u64, size: u64) -> BufferUsageIntent {
    BufferUsageIntent { set, binding, buffer: BufferId(buffer), offset, size }
}

fn state_with(layouts: usize) -> BridgeState {
    let mut s = BridgeState::new(256, 64);
    s.resources.compute_pipelines.insert(1, ComputePipelineRecord { bind_group_layout_count: layouts });
    s.resources.buffers.insert(10, BufferRecord { size: 1024 });
    s.resources.buffers.insert(11, BufferRecord { size: 64 });
    s
}

fn dispatch(intents: Vec<BufferUsageIntent>) -> ComputePassDescriptor {
    ComputePassDescriptor { pipeline: ComputePipelineId(1), buffer_intents: intents, workgroup_count: [4, 2, 1] }
}

#[test]
fn dispatch_groups_by_ascending_set_in_intent_order() {
    let s = state_with(3);
    let plan = s
        .record_compute_dispatch(&dispatch(vec![
            intent(2, 0, 10, 0, 16),
            intent(0, 1, 11, 8, 0),
            intent(2, 1, 11, 0, 0),
            intent(0, 0, 10, 0, 32),
        ]))
        .unwrap();
    assert_eq!(plan.pipeline, ComputePipelineId(1));
    assert_eq!(plan.workgroup_count, [4, 2, 1]);
    assert_eq!(plan.groups.len(), 2);
    assert_eq!(plan.groups[0].set, 0);
    assert_eq!(
        plan.groups[0].entries,
        vec![
            BindingPlan { binding: 1, buffer: BufferId(11), offset: 8, size: 64 },
            BindingPlan { binding: 0, buffer: BufferId(10), offset: 0, size: 32 },
        ]
    );
    assert_eq!(plan.groups[1].set, 2);
    assert_eq!(
        plan.groups[1].entries,
        vec![
            BindingPlan { binding: 0, buffer: BufferId(10), offset: 0, size: 16 },
            BindingPlan { binding: 1, buffer: BufferId(11), offset: 0, size: 64 },
        ]
    );
}

#[test]
fn dispatch_reports_missing_pipeline_layout_and_buffer() {
    let s = state_with(1);
    let mut missing = dispatch(vec![]);
    missing.pipeline = ComputePipelineId(2);
    assert!(matches!(s.record_compute_dispatch(&missing).unwrap_err().kind, ErrorKind::ResourceNotFound("compute_pipeline")));
    let e = s.record_compute_dispatch(&dispatch(vec![intent(1, 0, 10, 0, 0)])).unwrap_err();
    assert!(matches!(e.kind, ErrorKind::InvalidDescriptor("compute_bind_group_layout_missing")));
    // The smaller group index is checked first.
    let e = s.record_compute_dispatch(&dispatch(vec![intent(1, 0, 10, 0, 0), intent(0, 0, 99, 0, 0)])).unwrap_err();
    assert!(matches!(e.kind, ErrorKind::ResourceNotFound("buffer")));
    let empty = s.record_compute_dispatch(&dispatch(vec![])).unwrap();
    assert!(empty.groups.is_empty());
}

#[test]
fn bind_group_layouts_cover_every_index_up_to_the_largest() {
    assert!(build_bind_group_layouts(&vec![]).is_empty());
    let b = |set: u32, binding: u32, readonly: bool| ComputeBindingLayout { set, binding, readonly };
    let groups = build_bind_group_layouts(&vec![b(2, 0, true), b(0, 3, false), b(2, 1, false)]);
    assert_eq!(groups.len(), 3);
    assert_eq!(groups[0], vec![b(0, 3, false)]);
    assert!(groups[1].is_empty());
    assert_eq!(groups[2], vec![b(2, 0, true), b(2, 1, false)]);
}

#[test]
fn compute_pipeline_descriptor_checks() {
    let base = ComputePipelineDescriptor {
        shader_spv: vec![0x03, 0x02, 0x23, 0x07, 1, 0, 0, 0],
        entry_point: "main".to_string(),
        bindings: vec![ComputeBindingLayout { set: 1, binding: 0, readonly: true }],
    };
    let mut d = base.clone();
    d.shader_spv = vec![];
    assert!(matches!(create_compute_pipeline(&d).unwrap_err().kind, ErrorKind::InvalidDescriptor("compute_shader_bytes_missing")));
    let mut d = base.clone();
    d.shader_spv = vec![1, 2, 3];
    assert!(matches!(create_compute_pipeline(&d).unwrap_err().kind, ErrorKind::InvalidDescriptor("compute_shader_bytes_not_word_aligned")));
    let mut d = base.clone();
    d.entry_point = String::new();
    assert!(matches!(create_compute_pipeline(&d).unwrap_err().kind, ErrorKind::InvalidDescriptor("compute_shader_entry_missing")));
    let plan = create_compute_pipeline(&base).unwrap();
    assert_eq!(plan.shader_words, vec![0x0723_0203, 1]);
    assert_eq!(plan.bind_group_layouts.len(), 2);
    assert!(plan.bind_group_layouts[0].is_empty());
    assert_eq!(plan.descriptor.shader_spv, base.shader_spv);
    assert_eq!(plan.descriptor.entry_point, "main");
    assert_eq!(plan.descriptor.bindings, base.bindings);
}
