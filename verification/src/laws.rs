//! Properties of the bridge that span several operations.

use vstd::prelude::*;

use crate::descriptors::{Extent2D, MaterialDescriptor, MaterialId, ResourceCreateDescriptor, ResourceHandle, ResourceUpdateDescriptor};
use crate::frame::{bind_group_of, depth_index, depth_step, draw_step, draws_upto, grown_capacity, lemma_depth_index, BindGroupChoice};
use crate::descriptors::DrawInstance;
use crate::numeric::{is_power_of_two, lemma_power_of_two_from, lemma_round_up, next_power_of_two, round_up};
use crate::upload::{lemma_padded_rows_len, padded_rows, zeros};
use crate::descriptors::PassDescriptor;
use crate::registry::{update_all, BridgeState, DepthTarget, DepthTargetKey};
use crate::registry::{
    create_all, create_step, ids_available, kind_count, lemma_create_all_ids, pipeline_step,
    update_step, without_material, BridgeView, MaterialPipelineKey, PipelineLookup,
};
use crate::shader::{max_set, spirv_words_of};
use crate::compute::{dispatch_plan_of, group_entries, group_plan, groups_from};
use crate::descriptors::{BufferUsageIntent, ComputeBindingLayout, ComputePassDescriptor, DepthAttachmentLoad};
use crate::frame::depth_load_of;
use crate::registry::ComputePipelineRecord;
use crate::surface::reconfigured;
use crate::wgpu_api::{has_spirv_magic, spirv_magic};

verus! {

/// Whether a handle's identifier lies between the next identifiers of its
/// kind in two states.
pub open spec fn handle_between(h: ResourceHandle, lo: BridgeView, hi: BridgeView) -> bool {
    match h {
        ResourceHandle::Mesh(id) => lo.next_mesh_id <= id.0 < hi.next_mesh_id,
        ResourceHandle::Material(id) => lo.next_material_id <= id.0 < hi.next_material_id,
        ResourceHandle::Texture(id) => lo.next_texture_id <= id.0 < hi.next_texture_id,
    }
}

/// Fresh identifiers: every handle a batch returns carries an identifier that
/// had not been handed out before the batch (at least the kind's next
/// identifier then, and below it afterwards), and no two handles are equal.
pub proof fn law_created_ids_are_fresh(s: BridgeView, resources: Seq<ResourceCreateDescriptor>)
    requires
        ids_available(s, resources),
    ensures
        create_all(s, resources).1 matches Ok(handles) ==> {
            &&& forall|i: int| 0 <= i < handles.len() ==> handle_between(#[trigger] handles[i], s, create_all(s, resources).0)
            &&& forall|i: int, j: int| 0 <= i < j < handles.len() ==> #[trigger] handles[i] != #[trigger] handles[j]
        },
    decreases resources.len(),
{
    if resources.len() > 0 {
        let prefix = resources.drop_last();
        assert(kind_count(prefix, 0) <= kind_count(resources, 0));
        assert(kind_count(prefix, 1) <= kind_count(resources, 1));
        assert(kind_count(prefix, 2) <= kind_count(resources, 2));
        law_created_ids_are_fresh(s, prefix);
        lemma_create_all_ids(s, prefix);
        let (s1, r1) = create_all(s, prefix);
        if r1 is Ok {
            let handles = r1->Ok_0;
            let (s2, r2) = create_step(s1, resources.last());
            if r2 is Ok {
                let all = handles.push(r2->Ok_0);
                assert forall|i: int| 0 <= i < all.len() implies handle_between(#[trigger] all[i], s, s2) by {
                    if i < handles.len() {
                        assert(all[i] == handles[i]);
                        assert(handle_between(handles[i], s, s1));
                    }
                }
                assert forall|i: int, j: int| 0 <= i < j < all.len() implies #[trigger] all[i] != #[trigger] all[j] by {
                    if j == all.len() - 1 {
                        assert(all[i] == handles[i]);
                        assert(handle_between(handles[i], s, s1));
                    } else {
                        assert(all[i] == handles[i] && all[j] == handles[j]);
                    }
                }
            }
        }
    }
}

/// A batch of one resource does what creating that resource does.
pub proof fn law_single_resource_batch(s: BridgeView, resource: ResourceCreateDescriptor)
    ensures
        create_all(s, seq![resource]).0 == create_step(s, resource).0,
        create_all(s, seq![resource]).1 == match create_step(s, resource).1 {
            Ok(h) => Ok::<Seq<ResourceHandle>, crate::error::Error>(seq![h]),
            Err(e) => Err(e),
        },
{
    assert(seq![resource].drop_last() =~= Seq::<ResourceCreateDescriptor>::empty());
    assert(create_all(s, Seq::<ResourceCreateDescriptor>::empty()) == (s, Ok::<Seq<ResourceHandle>, crate::error::Error>(Seq::empty())));
    assert(Seq::<ResourceHandle>::empty().push(create_step(s, resource).1->Ok_0) =~= seq![create_step(s, resource).1->Ok_0]);
}

/// A created material is what later lookups see: its draws bind its texture
/// (or the fallback), and its pipelines test depth exactly when it asks for
/// depth and the pass uses depth.
pub proof fn law_created_material_is_read_back(s: BridgeView, material: MaterialDescriptor, vertex_layout_id: u64, pass_uses_depth: bool)
    requires
        create_step(s, ResourceCreateDescriptor::Material(material)).1 is Ok,
    ensures
        ({
            let (s2, r) = create_step(s, ResourceCreateDescriptor::Material(material));
            let id = MaterialId(s.next_material_id);
            &&& r == Ok::<ResourceHandle, crate::error::Error>(ResourceHandle::Material(id))
            &&& s2.materials[id.0] == material
            &&& (material.texture is None ==> bind_group_of(s2, id) == Ok::<BindGroupChoice, crate::error::Error>(BindGroupChoice::Fallback))
            &&& (material.texture matches Some(t) ==> (s.textures.contains_key(t.0) ==> bind_group_of(s2, id) == Ok::<BindGroupChoice, crate::error::Error>(BindGroupChoice::Texture(t))))
            &&& (pipeline_step(s2, id, vertex_layout_id, pass_uses_depth).1 matches Ok(p) ==> p.key.depth_enabled == (pass_uses_depth && material.enable_depth))
        }),
{
}

/// A successful material update leaves no cached pipeline of that material
/// and keeps every other cached pipeline.
pub proof fn law_material_update_drops_its_pipelines(s: BridgeView, id: MaterialId, enable_depth: Option<bool>, texture: Option<Option<crate::descriptors::TextureId>>)
    requires
        update_step(s, ResourceUpdateDescriptor::Material { id, enable_depth, texture }).1 is Ok,
    ensures
        ({
            let cache = update_step(s, ResourceUpdateDescriptor::Material { id, enable_depth, texture }).0.pipeline_cache;
            &&& forall|k: MaterialPipelineKey| cache.contains(k) ==> k.material_id != id
            &&& forall|k: MaterialPipelineKey| s.pipeline_cache.contains(k) && k.material_id != id ==> cache.contains(k)
        }),
{
    let pred = |k: MaterialPipelineKey| k.material_id != id;
    let cache = without_material(s.pipeline_cache, id);
    broadcast use vstd::seq_lib::group_filter_ensures;
    assert forall|k: MaterialPipelineKey| cache.contains(k) implies k.material_id != id by {
        let i = choose|i: int| 0 <= i < cache.len() && cache[i] == k;
        assert(pred(cache[i]));
    }
    assert forall|k: MaterialPipelineKey| s.pipeline_cache.contains(k) && k.material_id != id implies cache.contains(k) by {
        let i = choose|i: int| 0 <= i < s.pipeline_cache.len() && s.pipeline_cache[i] == k;
        assert(pred(s.pipeline_cache[i]));
    }
}

/// A pipeline lookup that succeeds leaves its key cached, so the same lookup
/// right after needs no build and changes nothing.
pub proof fn law_pipeline_lookup_is_idempotent(s: BridgeView, material: MaterialId, vertex_layout_id: u64, pass_uses_depth: bool)
    requires
        pipeline_step(s, material, vertex_layout_id, pass_uses_depth).1 is Ok,
    ensures
        ({
            let (s2, r) = pipeline_step(s, material, vertex_layout_id, pass_uses_depth);
            &&& s2.pipeline_cache.contains(r->Ok_0.key)
            &&& pipeline_step(s2, material, vertex_layout_id, pass_uses_depth) == (
                s2,
                Ok::<PipelineLookup, crate::error::Error>(PipelineLookup { key: r->Ok_0.key, needs_build: false }),
            )
        }),
{
    let (s2, r) = pipeline_step(s, material, vertex_layout_id, pass_uses_depth);
    if r->Ok_0.needs_build {
        assert(s2.pipeline_cache[s2.pipeline_cache.len() - 1] == r->Ok_0.key);
    }
}

/// Reconfiguring the swapchain drops every cached pipeline: the next
/// successful lookup of any draw builds its pipeline anew.
pub proof fn law_reconfigure_forces_rebuild(s: BridgeView, extent: Extent2D, material: MaterialId, vertex_layout_id: u64, pass_uses_depth: bool)
    ensures
        pipeline_step(reconfigured(s, extent), material, vertex_layout_id, pass_uses_depth).1 matches Ok(p) ==> p.needs_build,
{
}

/// The first SPIR-V word decoded from bytes that carry the magic number is
/// the magic number.
pub proof fn law_spirv_first_word_is_magic(bytes: Seq<u8>, words: Seq<u32>)
    requires
        bytes.len() >= 4,
        has_spirv_magic(bytes),
        spirv_words_of(bytes, words),
    ensures
        words[0] == spirv_magic(),
{
    assert(words.len() >= 1);
    assert(words[0] == words[0]);
}

/// Whether every registered mesh, material and texture has an identifier
/// below the next one of its kind.
pub open spec fn ids_below_next(s: BridgeView) -> bool {
    &&& forall|k: u64| s.meshes.contains_key(k) ==> k < s.next_mesh_id
    &&& forall|k: u64| s.materials.contains_key(k) ==> k < s.next_material_id
    &&& forall|k: u64| s.textures.contains_key(k) ==> k < s.next_texture_id
}

/// Creation never overwrites: when every registered resource has an
/// identifier below the next one of its kind, a batch keeps every registered
/// resource as it was, and the property still holds afterwards.
pub proof fn law_creation_keeps_existing_resources(s: BridgeView, resources: Seq<ResourceCreateDescriptor>)
    requires
        ids_available(s, resources),
        ids_below_next(s),
    ensures
        ({
            let s2 = create_all(s, resources).0;
            &&& ids_below_next(s2)
            &&& forall|k: u64| #[trigger] s.meshes.contains_key(k) ==> s2.meshes.contains_key(k) && s2.meshes[k] == s.meshes[k]
            &&& forall|k: u64| #[trigger] s.materials.contains_key(k) ==> s2.materials.contains_key(k) && s2.materials[k] == s.materials[k]
            &&& forall|k: u64| #[trigger] s.textures.contains_key(k) ==> s2.textures.contains_key(k) && s2.textures[k] == s.textures[k]
        }),
    decreases resources.len(),
{
    if resources.len() > 0 {
        let prefix = resources.drop_last();
        assert(kind_count(prefix, 0) <= kind_count(resources, 0));
        assert(kind_count(prefix, 1) <= kind_count(resources, 1));
        assert(kind_count(prefix, 2) <= kind_count(resources, 2));
        law_creation_keeps_existing_resources(s, prefix);
        lemma_create_all_ids(s, prefix);
        let s1 = create_all(s, prefix).0;
        if create_all(s, prefix).1 is Ok {
            let s2 = create_step(s1, resources.last()).0;
            assert(create_all(s, resources).0 == s2);
            assert forall|k: u64| s.meshes.contains_key(k) implies s2.meshes.contains_key(k) && s2.meshes[k] == s.meshes[k] by {
                assert(s1.meshes.contains_key(k));
                assert(s1.meshes[k] == s.meshes[k]);
                assert(k < s1.next_mesh_id);
                assert(s2.meshes.contains_key(k));
                assert(s2.meshes[k] == s1.meshes[k]);
            }
            assert forall|k: u64| s.materials.contains_key(k) implies s2.materials.contains_key(k) && s2.materials[k] == s.materials[k] by {
                assert(s1.materials.contains_key(k));
                assert(s1.materials[k] == s.materials[k]);
                assert(k < s1.next_material_id);
                assert(s2.materials.contains_key(k));
                assert(s2.materials[k] == s1.materials[k]);
            }
            assert forall|k: u64| s.textures.contains_key(k) implies s2.textures.contains_key(k) && s2.textures[k] == s.textures[k] by {
                assert(k < s1.next_texture_id);
            }
            assert forall|k: u64| s2.meshes.contains_key(k) implies k < s2.next_mesh_id by {
                if s1.meshes.contains_key(k) {
                    assert(k < s1.next_mesh_id);
                }
            }
            assert forall|k: u64| s2.materials.contains_key(k) implies k < s2.next_material_id by {
                if s1.materials.contains_key(k) {
                    assert(k < s1.next_material_id);
                }
            }
            assert forall|k: u64| s2.textures.contains_key(k) implies k < s2.next_texture_id by {
                if s1.textures.contains_key(k) {
                    assert(k < s1.next_texture_id);
                }
            }
        }
    }
}

/// The staging layout of a texture upload: byte `c` of row `r` is byte `c` of
/// the source row when `c` is inside the row, and zero in the padding.
pub proof fn law_padded_rows_layout(data: Seq<u8>, row_len: nat, pitch: nat, rows: nat, r: nat, c: nat)
    requires
        row_len <= pitch,
        rows * row_len <= data.len(),
        r < rows,
        c < pitch,
    ensures
        padded_rows(data, row_len, pitch, rows)[(r * pitch + c) as int] == if c < row_len {
            data[(r * row_len + c) as int]
        } else {
            0u8
        },
    decreases rows,
{
    let prev = (rows - 1) as nat;
    assert(prev * row_len <= rows * row_len) by (nonlinear_arith)
        requires
            prev + 1 == rows,
    ;
    assert(rows * row_len == prev * row_len + row_len) by (nonlinear_arith)
        requires
            prev + 1 == rows,
    ;
    lemma_padded_rows_len(data, row_len, pitch, prev);
    let front = padded_rows(data, row_len, pitch, prev);
    let row = data.subrange((prev * row_len) as int, (rows * row_len) as int);
    let pad = zeros((pitch - row_len) as nat);
    assert(padded_rows(data, row_len, pitch, rows) == front + row + pad);
    if r < prev {
        assert(r * pitch + c < prev * pitch) by (nonlinear_arith)
            requires
                r < prev,
                c < pitch,
        ;
        law_padded_rows_layout(data, row_len, pitch, prev, r, c);
    } else {
        assert(r == prev);
        assert(r * pitch + c - front.len() == c);
        if c < row_len {
            assert(row[c as int] == data[(prev * row_len + c) as int]);
        } else {
            assert((front + row + pad)[(r * pitch + c) as int] == pad[c - row_len]);
        }
    }
}

/// Buffer sizes: the allocated size of a buffer for `len` bytes is a multiple
/// of four, holds the data (and at least one byte), and wastes fewer than
/// four bytes.
pub proof fn law_buffer_size(len: nat)
    ensures
        ({
            let size = round_up(if len == 0 { 1 } else { len as int }, 4);
            &&& size % 4 == 0
            &&& size >= len
            &&& size >= 1
            &&& size < (if len == 0 { 1 } else { len as int }) + 4
        }),
{
    lemma_round_up(if len == 0 { 1 } else { len as int }, 4);
}

/// Growth of the per-object buffer: when it grows, it makes room for what
/// was required, at least doubles, and lands on a power of two or on twice
/// the old capacity.
pub proof fn law_capacity_growth(capacity: u32, required: u32)
    requires
        capacity < required,
    ensures
        grown_capacity(capacity, required) >= required,
        grown_capacity(capacity, required) >= 2 * capacity,
        is_power_of_two(grown_capacity(capacity, required)) || grown_capacity(capacity, required) == 2 * capacity,
{
    lemma_power_of_two_from(1, required as nat);
}

/// Whether no two depth attachments share a key.
pub open spec fn depth_keys_unique(targets: Seq<DepthTarget>) -> bool {
    forall|i: int, j: int| 0 <= i < j < targets.len() ==> targets[i].key != targets[j].key
}

/// Depth attachments stay one per key.
pub proof fn law_depth_targets_stay_unique(s: BridgeView, pass: PassDescriptor)
    requires
        depth_keys_unique(s.depth_targets),
    ensures
        depth_keys_unique(depth_step(s, pass).0.depth_targets),
{
    if let Ok(key) = crate::frame::depth_key_of(s, pass) {
        lemma_depth_index(s.depth_targets, key);
    }
}

/// Whether no pipeline key is cached twice.
pub open spec fn pipeline_keys_unique(cache: Seq<MaterialPipelineKey>) -> bool {
    forall|i: int, j: int| 0 <= i < j < cache.len() ==> cache[i] != cache[j]
}

/// Whether a depth attachment has the size its key calls for: a swapchain
/// attachment the size in its key, a texture attachment the size of its
/// (registered) texture.
pub open spec fn depth_target_fits(s: BridgeView, t: DepthTarget) -> bool {
    match t.key {
        DepthTargetKey::Swapchain { width, height } => t.width == width && t.height == height,
        DepthTargetKey::Texture(id) => s.textures.contains_key(id.0) && t.width == s.textures[id.0].width
            && t.height == s.textures[id.0].height,
    }
}

/// Whether every depth attachment has the size its key calls for.
pub open spec fn depth_sizes_match(s: BridgeView) -> bool {
    forall|i: int| 0 <= i < s.depth_targets.len() ==> #[trigger] depth_target_fits(s, s.depth_targets[i])
}

/// The bridge's bookkeeping invariant: each pipeline key cached once, each
/// depth attachment held once per key and sized as its key calls for.
pub open spec fn bridge_consistent(s: BridgeView) -> bool {
    &&& pipeline_keys_unique(s.pipeline_cache)
    &&& depth_keys_unique(s.depth_targets)
    &&& depth_sizes_match(s)
}

/// A new bridge is consistent.
pub proof fn law_new_bridge_is_consistent(object_aligned_stride: u32, object_buffer_capacity: u32)
    ensures
        bridge_consistent(BridgeState::new_view(object_aligned_stride, object_buffer_capacity)),
{
}

/// Making sure a pass has its depth attachment keeps the bridge consistent.
pub proof fn law_depth_step_keeps_consistency(s: BridgeView, pass: PassDescriptor)
    requires
        bridge_consistent(s),
    ensures
        bridge_consistent(depth_step(s, pass).0),
{
    law_depth_targets_stay_unique(s, pass);
    let s2 = depth_step(s, pass).0;
    assert(s2.textures == s.textures);
    if let Ok(key) = crate::frame::depth_key_of(s, pass) {
        lemma_depth_index(s.depth_targets, key);
        assert forall|i: int| 0 <= i < s2.depth_targets.len() implies #[trigger] depth_target_fits(s2, s2.depth_targets[i]) by {
            if i < s.depth_targets.len() && s2.depth_targets[i] == s.depth_targets[i] {
                assert(depth_target_fits(s, s.depth_targets[i]));
            }
        }
    }
}

/// A pipeline lookup keeps the bridge consistent: a key is cached only when
/// it was missing.
pub proof fn law_pipeline_lookup_keeps_consistency(s: BridgeView, material: MaterialId, vertex_layout_id: u64, pass_uses_depth: bool)
    requires
        bridge_consistent(s),
    ensures
        bridge_consistent(pipeline_step(s, material, vertex_layout_id, pass_uses_depth).0),
{
    let s2 = pipeline_step(s, material, vertex_layout_id, pass_uses_depth).0;
    if s2.pipeline_cache.len() > s.pipeline_cache.len() {
        let key = s2.pipeline_cache.last();
        assert forall|i: int, j: int| 0 <= i < j < s2.pipeline_cache.len() implies s2.pipeline_cache[i] != s2.pipeline_cache[j] by {
            if j == s.pipeline_cache.len() {
                assert(s.pipeline_cache[i] == s2.pipeline_cache[i]);
                assert(!s.pipeline_cache.contains(key));
            }
        }
    }
    assert forall|i: int| 0 <= i < s2.depth_targets.len() implies #[trigger] depth_target_fits(s2, s2.depth_targets[i]) by {
        assert(depth_target_fits(s, s.depth_targets[i]));
    }
}

/// Planning one draw keeps the bridge consistent.
proof fn lemma_draw_step_keeps_consistency(s: BridgeView, instances: Seq<DrawInstance>, draws: Seq<usize>, j: int, pass_uses_depth: bool)
    requires
        bridge_consistent(s),
    ensures
        bridge_consistent(draw_step(s, instances, draws, j, pass_uses_depth).0),
{
    let instance = instances[draws[j] as int];
    if s.meshes.contains_key(instance.mesh.0) {
        law_pipeline_lookup_keeps_consistency(s, instance.material, s.meshes[instance.mesh.0].vertex_layout_id, pass_uses_depth);
    }
}

/// Planning the draws of a pass keeps the bridge consistent, whether or not
/// a draw fails.
pub proof fn law_planned_draws_keep_consistency(s: BridgeView, instances: Seq<DrawInstance>, draws: Seq<usize>, n: nat, pass_uses_depth: bool)
    requires
        bridge_consistent(s),
    ensures
        bridge_consistent(draws_upto(s, instances, draws, n, pass_uses_depth).0),
    decreases n,
{
    if n > 0 {
        law_planned_draws_keep_consistency(s, instances, draws, (n - 1) as nat, pass_uses_depth);
        let s1 = draws_upto(s, instances, draws, (n - 1) as nat, pass_uses_depth).0;
        lemma_draw_step_keeps_consistency(s1, instances, draws, n - 1, pass_uses_depth);
    }
}

/// Dropping the pipelines of a material keeps the other keys unique.
proof fn lemma_without_material_unique(cache: Seq<MaterialPipelineKey>, id: MaterialId)
    requires
        pipeline_keys_unique(cache),
    ensures
        pipeline_keys_unique(without_material(cache, id)),
        forall|k: MaterialPipelineKey| without_material(cache, id).contains(k) ==> cache.contains(k),
    decreases cache.len(),
{
    reveal_with_fuel(Seq::filter, 1);
    if cache.len() > 0 {
        let prefix = cache.drop_last();
        assert(pipeline_keys_unique(prefix)) by {
            assert forall|i: int, j: int| 0 <= i < j < prefix.len() implies prefix[i] != prefix[j] by {
                assert(prefix[i] == cache[i] && prefix[j] == cache[j]);
            }
        }
        lemma_without_material_unique(prefix, id);
        let f = without_material(prefix, id);
        assert forall|k: MaterialPipelineKey| f.contains(k) implies cache.contains(k) by {
            assert(prefix.contains(k));
            let w = choose|w: int| 0 <= w < prefix.len() && prefix[w] == k;
            assert(cache[w] == k);
        }
        if cache.last().material_id != id {
            let last = cache.last();
            assert(!f.contains(last)) by {
                if f.contains(last) {
                    assert(prefix.contains(last));
                    let w = choose|w: int| 0 <= w < prefix.len() && prefix[w] == last;
                    assert(cache[w] == cache[cache.len() - 1]);
                }
            }
            let g = f.push(last);
            assert(without_material(cache, id) == g);
            assert forall|i: int, j: int| 0 <= i < j < g.len() implies g[i] != g[j] by {
                if j == g.len() - 1 {
                    assert(g[i] == f[i]);
                    assert(f.contains(f[i]));
                }
            }
            assert forall|k: MaterialPipelineKey| g.contains(k) implies cache.contains(k) by {
                let w = choose|w: int| 0 <= w < g.len() && g[w] == k;
                if w < f.len() {
                    assert(f[w] == k);
                    assert(f.contains(k));
                } else {
                    assert(cache[cache.len() - 1] == k);
                }
            }
        } else {
            assert(without_material(cache, id) == f);
        }
    }
}

/// One resource update keeps the bridge consistent.
proof fn lemma_update_step_keeps_consistency(s: BridgeView, update: ResourceUpdateDescriptor)
    requires
        bridge_consistent(s),
    ensures
        bridge_consistent(update_step(s, update).0),
{
    let s2 = update_step(s, update).0;
    if let ResourceUpdateDescriptor::Material { id, .. } = update {
        lemma_without_material_unique(s.pipeline_cache, id);
    }
    assert(s2.textures == s.textures && s2.depth_targets == s.depth_targets);
    assert forall|i: int| 0 <= i < s2.depth_targets.len() implies #[trigger] depth_target_fits(s2, s2.depth_targets[i]) by {
        assert(depth_target_fits(s, s.depth_targets[i]));
    }
}

/// A batch of resource updates keeps the bridge consistent, whether or not
/// an update is refused.
pub proof fn law_updates_keep_consistency(s: BridgeView, updates: Seq<ResourceUpdateDescriptor>)
    requires
        bridge_consistent(s),
    ensures
        bridge_consistent(update_all(s, updates).0),
    decreases updates.len(),
{
    if updates.len() > 0 {
        law_updates_keep_consistency(s, updates.drop_last());
        let s1 = update_all(s, updates.drop_last()).0;
        lemma_update_step_keeps_consistency(s1, updates.last());
    }
}

/// Creating resources touches neither the pipeline cache nor the depth
/// attachments.
pub proof fn law_creation_keeps_cache_and_depth_targets(s: BridgeView, resources: Seq<ResourceCreateDescriptor>)
    ensures
        create_all(s, resources).0.pipeline_cache == s.pipeline_cache,
        create_all(s, resources).0.depth_targets == s.depth_targets,
    decreases resources.len(),
{
    if resources.len() > 0 {
        law_creation_keeps_cache_and_depth_targets(s, resources.drop_last());
    }
}

/// Creating resources keeps the bridge consistent when no registered
/// resource sits at or above the next identifier of its kind.
pub proof fn law_creation_keeps_consistency(s: BridgeView, resources: Seq<ResourceCreateDescriptor>)
    requires
        bridge_consistent(s),
        ids_available(s, resources),
        ids_below_next(s),
    ensures
        bridge_consistent(create_all(s, resources).0),
{
    law_creation_keeps_cache_and_depth_targets(s, resources);
    law_creation_keeps_existing_resources(s, resources);
    let s2 = create_all(s, resources).0;
    assert forall|i: int| 0 <= i < s2.depth_targets.len() implies #[trigger] depth_target_fits(s2, s2.depth_targets[i]) by {
        assert(depth_target_fits(s, s.depth_targets[i]));
        if let DepthTargetKey::Texture(id) = s.depth_targets[i].key {
            assert(s.textures.contains_key(id.0));
        }
    }
}

/// Reconfiguring the swapchain, dropping the pipeline cache and growing the
/// per-object buffer keep the bridge consistent.
pub proof fn law_reconfigure_and_resets_keep_consistency(s: BridgeView, extent: Extent2D, capacity: u32)
    requires
        bridge_consistent(s),
    ensures
        bridge_consistent(reconfigured(s, extent)),
        bridge_consistent(BridgeView { pipeline_cache: Seq::empty(), ..s }),
        bridge_consistent(BridgeView { object_buffer_capacity: capacity, ..s }),
{
    let s3 = BridgeView { object_buffer_capacity: capacity, ..s };
    assert forall|i: int| 0 <= i < s3.depth_targets.len() implies #[trigger] depth_target_fits(s3, s3.depth_targets[i]) by {
        assert(depth_target_fits(s, s.depth_targets[i]));
    }
    let s4 = BridgeView { pipeline_cache: Seq::empty(), ..s };
    assert forall|i: int| 0 <= i < s4.depth_targets.len() implies #[trigger] depth_target_fits(s4, s4.depth_targets[i]) by {
        assert(depth_target_fits(s, s.depth_targets[i]));
    }
}

/// Planning draws changes only the pipeline cache: resources, the surface,
/// the depth attachments and the per-object buffer stay as they were.
pub proof fn law_draw_planning_changes_only_the_cache(s: BridgeView, instances: Seq<DrawInstance>, draws: Seq<usize>, n: nat, pass_uses_depth: bool)
    ensures
        draws_upto(s, instances, draws, n, pass_uses_depth).0 == (BridgeView {
            pipeline_cache: draws_upto(s, instances, draws, n, pass_uses_depth).0.pipeline_cache,
            ..s
        }),
    decreases n,
{
    if n > 0 {
        law_draw_planning_changes_only_the_cache(s, instances, draws, (n - 1) as nat, pass_uses_depth);
    }
}

/// What draw `j` of a fully planned pass is: it draws instance `draws[j]`
/// with that instance's mesh and material; it rebinds the material bind group
/// exactly when it is the first draw or its material differs from the
/// previous draw's; it binds the material's texture (the fallback when it has
/// none); its object sits `j` strides into the per-object buffer; it draws
/// the mesh's indices; and its pipeline is keyed by the material, the mesh's
/// vertex layout, and depth testing when both the pass and the material use
/// depth.
pub proof fn law_draw_plans_follow_the_draw_list(s: BridgeView, instances: Seq<DrawInstance>, draws: Seq<usize>, n: nat, pass_uses_depth: bool)
    requires
        draws_upto(s, instances, draws, n, pass_uses_depth).1 is Ok,
    ensures
        ({
            let plans = draws_upto(s, instances, draws, n, pass_uses_depth).1->Ok_0;
            &&& plans.len() == n
            &&& forall|j: int| 0 <= j < n ==> {
                let instance = instances[draws[j] as int];
                let material = s.materials[instance.material.0];
                let mesh = s.meshes[instance.mesh.0];
                &&& (#[trigger] plans[j]).rebind_material == (j == 0
                    || instances[draws[j - 1] as int].material != instance.material)
                &&& plans[j].instance_index == draws[j]
                &&& plans[j].material == instance.material
                &&& plans[j].mesh == instance.mesh
                &&& plans[j].slot == j as usize
                &&& plans[j].object_offset == (j * s.object_aligned_stride) as u32
                &&& s.materials.contains_key(instance.material.0)
                &&& s.meshes.contains_key(instance.mesh.0)
                &&& plans[j].bind_group == match material.texture {
                    Some(t) => BindGroupChoice::Texture(t),
                    None => BindGroupChoice::Fallback,
                }
                &&& plans[j].index_count == mesh.index_count
                &&& plans[j].index_format == mesh.index_format
                &&& plans[j].pipeline.key.material_id == instance.material
                &&& plans[j].pipeline.key.vertex_layout_id == mesh.vertex_layout_id
                &&& plans[j].pipeline.key.depth_enabled == (pass_uses_depth && material.enable_depth)
            }
        }),
    decreases n,
{
    if n > 0 {
        let (s1, r1) = draws_upto(s, instances, draws, (n - 1) as nat, pass_uses_depth);
        assert(r1 is Ok);
        law_draw_plans_follow_the_draw_list(s, instances, draws, (n - 1) as nat, pass_uses_depth);
        law_draw_planning_changes_only_the_cache(s, instances, draws, (n - 1) as nat, pass_uses_depth);
        assert(s1.object_aligned_stride == s.object_aligned_stride);
        assert(s1.materials == s.materials && s1.meshes == s.meshes && s1.textures == s.textures);
        let prefix = r1->Ok_0;
        let p = draw_step(s1, instances, draws, n - 1, pass_uses_depth).1->Ok_0;
        let plans = draws_upto(s, instances, draws, n, pass_uses_depth).1->Ok_0;
        assert(plans == prefix.push(p));
        assert(p.object_offset == ((n - 1) * s.object_aligned_stride) as u32);
        assert forall|j: int| 0 <= j < n implies {
            let instance = instances[draws[j] as int];
            let material = s.materials[instance.material.0];
            let mesh = s.meshes[instance.mesh.0];
            &&& (#[trigger] plans[j]).rebind_material == (j == 0
                || instances[draws[j - 1] as int].material != instance.material)
            &&& plans[j].instance_index == draws[j]
            &&& plans[j].material == instance.material
            &&& plans[j].mesh == instance.mesh
            &&& plans[j].slot == j as usize
            &&& plans[j].object_offset == (j * s.object_aligned_stride) as u32
            &&& s.materials.contains_key(instance.material.0)
            &&& s.meshes.contains_key(instance.mesh.0)
            &&& plans[j].bind_group == match material.texture {
                Some(t) => BindGroupChoice::Texture(t),
                None => BindGroupChoice::Fallback,
            }
            &&& plans[j].index_count == mesh.index_count
            &&& plans[j].index_format == mesh.index_format
            &&& plans[j].pipeline.key.material_id == instance.material
            &&& plans[j].pipeline.key.vertex_layout_id == mesh.vertex_layout_id
            &&& plans[j].pipeline.key.depth_enabled == (pass_uses_depth && material.enable_depth)
        } by {
            if j < n - 1 {
                assert(plans[j] == prefix[j]);
            }
        }
    }
}

/// A material update on a registered material sets its depth flag to the
/// requested one (and keeps it when none is requested), whether or not the
/// texture part of the update is accepted; an accepted update binds the
/// requested texture (keeping the old one when none is requested). The
/// shaders, entry points and cull mode stay as they were.
pub proof fn law_material_update_sets_depth_and_texture(s: BridgeView, id: MaterialId, enable_depth: Option<bool>, texture: Option<Option<crate::descriptors::TextureId>>)
    requires
        s.materials.contains_key(id.0),
    ensures
        ({
            let (s2, r) = update_step(s, ResourceUpdateDescriptor::Material { id, enable_depth, texture });
            let old_m = s.materials[id.0];
            let m = s2.materials[id.0];
            &&& s2.materials.contains_key(id.0)
            &&& m.enable_depth == match enable_depth {
                Some(d) => d,
                None => old_m.enable_depth,
            }
            &&& r is Ok ==> m.texture == match texture {
                Some(t) => t,
                None => old_m.texture,
            }
            &&& m.vertex_shader_spv == old_m.vertex_shader_spv
            &&& m.fragment_shader_spv == old_m.fragment_shader_spv
            &&& m.vertex_entry == old_m.vertex_entry
            &&& m.fragment_entry == old_m.fragment_entry
            &&& m.cull_mode == old_m.cull_mode
        }),
{
}

/// The largest group index of a binding list bounds every binding's group
/// index and is the group index of some binding.
pub proof fn law_max_set_is_the_largest_group(bindings: Seq<ComputeBindingLayout>)
    ensures
        forall|i: int| 0 <= i < bindings.len() ==> #[trigger] bindings[i].set <= max_set(bindings),
        bindings.len() > 0 ==> exists|i: int| 0 <= i < bindings.len() && #[trigger] bindings[i].set == max_set(bindings),
    decreases bindings.len(),
{
    if bindings.len() > 0 {
        let prefix = bindings.drop_last();
        law_max_set_is_the_largest_group(prefix);
        assert forall|i: int| 0 <= i < bindings.len() implies #[trigger] bindings[i].set <= max_set(bindings) by {
            if i < prefix.len() {
                assert(prefix[i] == bindings[i]);
            }
        }
        if bindings.last().set <= max_set(prefix) && prefix.len() > 0 {
            let i = choose|i: int| 0 <= i < prefix.len() && #[trigger] prefix[i].set == max_set(prefix);
            assert(bindings[i] == prefix[i]);
        } else {
            assert(bindings[bindings.len() - 1].set == max_set(bindings));
        }
    }
}

/// The depth load of a pass: none without depth; with depth, the pass's
/// own load when it asks for a depth attachment, else a clear.
pub proof fn law_depth_load_follows_the_pass(pass: PassDescriptor, uses_depth: bool)
    ensures
        !uses_depth ==> depth_load_of(pass, uses_depth) == DepthAttachmentLoad::Unused,
        uses_depth && pass.depth_load != DepthAttachmentLoad::Unused ==> depth_load_of(pass, uses_depth) == pass.depth_load,
        uses_depth && pass.depth_load == DepthAttachmentLoad::Unused ==> depth_load_of(pass, uses_depth) == DepthAttachmentLoad::Clear,
{
}

/// The intents of group `set`, in order.
pub open spec fn intents_of_set(intents: Seq<BufferUsageIntent>, set: u32) -> Seq<BufferUsageIntent> {
    intents.filter(|i: BufferUsageIntent| i.set == set)
}

/// Whether `entries` bind the intents of group `set`: binding `k` binds the
/// `k`-th intent of that group, at the intent's offset, for the intent's
/// size (the whole buffer when the intent's size is zero).
pub open spec fn binds_intents_of_set(s: BridgeView, intents: Seq<BufferUsageIntent>, set: u32, entries: Seq<crate::compute::BindingPlan>) -> bool {
    let f = intents_of_set(intents, set);
    &&& entries.len() == f.len()
    &&& forall|k: int| 0 <= k < f.len() ==> {
        &&& (#[trigger] entries[k]).binding == f[k].binding
        &&& entries[k].buffer == f[k].buffer
        &&& entries[k].offset == f[k].offset
        &&& s.buffers.contains_key(f[k].buffer.0)
        &&& entries[k].size == if f[k].size == 0 { s.buffers[f[k].buffer.0].size } else { f[k].size }
    }
}

/// The bindings of one group bind its intents, in order, at the intents'
/// offsets and sizes (see [`binds_intents_of_set`]).
pub proof fn law_group_binds_its_intents(s: BridgeView, intents: Seq<BufferUsageIntent>, set: u32)
    requires
        group_entries(s, intents, set) is Ok,
    ensures
        binds_intents_of_set(s, intents, set, group_entries(s, intents, set)->Ok_0),
    decreases intents.len(),
{
    reveal_with_fuel(Seq::filter, 1);
    if intents.len() > 0 {
        law_group_binds_its_intents(s, intents.drop_last(), set);
    }
}

/// Every group a dispatch-plan step returns holds the bindings of its own
/// group index.
proof fn lemma_groups_hold_their_entries(s: BridgeView, pipeline: ComputePipelineRecord, intents: Seq<BufferUsageIntent>, lo: int)
    requires
        0 <= lo <= 0x1_0000_0000,
        groups_from(s, pipeline, intents, lo) is Ok,
    ensures
        forall|g: int| 0 <= g < groups_from(s, pipeline, intents, lo)->Ok_0.len() ==>
            group_entries(s, intents, (#[trigger] groups_from(s, pipeline, intents, lo)->Ok_0[g]).0)
                == Ok::<Seq<crate::compute::BindingPlan>, crate::error::Error>(groups_from(s, pipeline, intents, lo)->Ok_0[g].1),
    decreases 0x1_0000_0000 - lo,
{
    if let Some(set) = crate::compute::min_set_at_least(intents, lo) {
        if set >= lo {
            lemma_groups_hold_their_entries(s, pipeline, intents, set + 1);
            let entries = group_plan(s, pipeline, intents, set)->Ok_0;
            let rest = groups_from(s, pipeline, intents, set + 1)->Ok_0;
            let all = groups_from(s, pipeline, intents, lo)->Ok_0;
            assert(all == seq![(set, entries)] + rest);
            assert forall|g: int| 0 <= g < all.len() implies group_entries(s, intents, (#[trigger] all[g]).0)
                == Ok::<Seq<crate::compute::BindingPlan>, crate::error::Error>(all[g].1) by {
                if g > 0 {
                    assert(all[g] == rest[g - 1]);
                }
            }
        }
    }
}

/// A planned dispatch binds what its intents ask: each group binds the
/// intents of its group index, in order, at the intents' offsets and sizes
/// (the whole buffer when an intent's size is zero).
pub proof fn law_dispatch_binds_intended_ranges(s: BridgeView, pass: ComputePassDescriptor)
    requires
        dispatch_plan_of(s, pass) is Ok,
    ensures
        forall|g: int| 0 <= g < dispatch_plan_of(s, pass)->Ok_0.len() ==> binds_intents_of_set(
            s,
            pass.buffer_intents@,
            (#[trigger] dispatch_plan_of(s, pass)->Ok_0[g]).0,
            dispatch_plan_of(s, pass)->Ok_0[g].1,
        ),
{
    let pipeline = s.compute_pipelines[pass.pipeline.0];
    let intents = pass.buffer_intents@;
    lemma_groups_hold_their_entries(s, pipeline, intents, 0);
    let groups = dispatch_plan_of(s, pass)->Ok_0;
    assert(groups == groups_from(s, pipeline, intents, 0)->Ok_0);
    assert forall|g: int| 0 <= g < groups.len() implies binds_intents_of_set(s, intents, (#[trigger] groups[g]).0, groups[g].1) by {
        assert(group_entries(s, intents, groups[g].0) == Ok::<Seq<crate::compute::BindingPlan>, crate::error::Error>(groups[g].1));
        law_group_binds_its_intents(s, intents, groups[g].0);
    }
}

} // verus!
