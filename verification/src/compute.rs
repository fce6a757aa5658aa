//! Compute dispatch planning: the pipeline, and one bind group per used group
//! index in ascending order, each binding the intended buffer ranges.

use vstd::prelude::*;

use crate::descriptors::{BufferId, BufferUsageIntent, ComputePassDescriptor, ComputePipelineId};
use crate::error::{recoverable_error, Error, ErrorKind};
use crate::registry::{BridgeState, BridgeView, ComputePipelineRecord};

verus! {

broadcast use {
    vstd::std_specs::hash::group_hash_axioms,
};

/// One buffer binding of a compute bind group.
#[derive(Debug, Clone, Copy, PartialEq, Eq, Structural)]
pub struct BindingPlan {
    /// Binding index inside the group.
    pub binding: u32,
    /// Bound buffer.
    pub buffer: BufferId,
    /// Byte offset of the bound range.
    pub offset: u64,
    /// Byte size of the bound range.
    pub size: u64,
}

/// One bind group of a dispatch.
#[derive(Debug)]
pub struct BindGroupPlan {
    /// Group index.
    pub set: u32,
    /// Bindings, in the order the intents list them.
    pub entries: Vec<BindingPlan>,
}

/// A planned compute dispatch.
#[derive(Debug)]
pub struct ComputeDispatchPlan {
    /// Pipeline to run.
    pub pipeline: ComputePipelineId,
    /// Bind groups, by ascending group index.
    pub groups: Vec<BindGroupPlan>,
    /// Workgroup counts in x, y and z.
    pub workgroup_count: [u32; 3],
}

/// The smallest group index at least `lo` that some intent uses.
pub open spec fn min_set_at_least(intents: Seq<BufferUsageIntent>, lo: int) -> Option<u32>
    decreases intents.len(),
{
    if intents.len() == 0 {
        None
    } else {
        let rest = min_set_at_least(intents.drop_last(), lo);
        let set = intents.last().set;
        if set >= lo && (rest is None || set < rest->0) {
            Some(set)
        } else {
            rest
        }
    }
}

/// The bindings of group `set`, in intent order; a missing buffer stops it.
/// A zero size binds the whole buffer.
pub open spec fn group_entries(s: BridgeView, intents: Seq<BufferUsageIntent>, set: u32) -> Result<Seq<BindingPlan>, Error>
    decreases intents.len(),
{
    if intents.len() == 0 {
        Ok(Seq::empty())
    } else {
        match group_entries(s, intents.drop_last(), set) {
            Err(e) => Err(e),
            Ok(entries) => {
                let intent = intents.last();
                if intent.set != set {
                    Ok(entries)
                } else if !s.buffers.contains_key(intent.buffer.0) {
                    Err(recoverable_error(ErrorKind::ResourceNotFound("buffer")))
                } else {
                    Ok(entries.push(BindingPlan {
                        binding: intent.binding,
                        buffer: intent.buffer,
                        offset: intent.offset,
                        size: if intent.size == 0 { s.buffers[intent.buffer.0].size } else { intent.size },
                    }))
                }
            },
        }
    }
}

/// The bind group of index `set`: the pipeline must have a layout for it.
pub open spec fn group_plan(s: BridgeView, pipeline: ComputePipelineRecord, intents: Seq<BufferUsageIntent>, set: u32) -> Result<Seq<BindingPlan>, Error> {
    if set as int >= pipeline.bind_group_layout_count {
        Err(recoverable_error(ErrorKind::InvalidDescriptor("compute_bind_group_layout_missing")))
    } else {
        group_entries(s, intents, set)
    }
}

/// The bind groups of the used group indices at least `lo`, ascending.
pub open spec fn groups_from(s: BridgeView, pipeline: ComputePipelineRecord, intents: Seq<BufferUsageIntent>, lo: int) -> Result<Seq<(u32, Seq<BindingPlan>)>, Error>
    decreases 0x1_0000_0000 - lo when lo <= 0x1_0000_0000
{
    match min_set_at_least(intents, lo) {
        None => Ok(Seq::empty()),
        Some(set) => if set < lo {
            Ok(Seq::empty())
        } else {
            match group_plan(s, pipeline, intents, set) {
                Err(e) => Err(e),
                Ok(entries) => match groups_from(s, pipeline, intents, set + 1) {
                    Err(e) => Err(e),
                    Ok(rest) => Ok(seq![(set, entries)] + rest),
                },
            }
        },
    }
}

/// The plan of a dispatch: its pipeline must exist; then its bind groups.
pub open spec fn dispatch_plan_of(s: BridgeView, pass: ComputePassDescriptor) -> Result<Seq<(u32, Seq<BindingPlan>)>, Error> {
    if !s.compute_pipelines.contains_key(pass.pipeline.0) {
        Err(recoverable_error(ErrorKind::ResourceNotFound("compute_pipeline")))
    } else {
        groups_from(s, s.compute_pipelines[pass.pipeline.0], pass.buffer_intents@, 0)
    }
}

/// The group index and bindings of a planned group.
pub open spec fn group_view(g: BindGroupPlan) -> (u32, Seq<BindingPlan>) {
    (g.set, g.entries@)
}

/// The minimum found on a prefix, extended by one intent.
proof fn lemma_min_set_step(intents: Seq<BufferUsageIntent>, lo: int, i: int)
    requires
        0 <= i < intents.len(),
    ensures
        min_set_at_least(intents.take(i + 1), lo) == {
            let rest = min_set_at_least(intents.take(i), lo);
            let set = intents[i].set;
            if set >= lo && (rest is None || set < rest->0) { Some(set) } else { rest }
        },
{
    assert(intents.take(i + 1).drop_last() =~= intents.take(i));
}

/// A found minimum is at least `lo`.
proof fn lemma_min_set_bound(intents: Seq<BufferUsageIntent>, lo: int)
    ensures
        min_set_at_least(intents, lo) matches Some(m) ==> m >= lo,
    decreases intents.len(),
{
    if intents.len() > 0 {
        lemma_min_set_bound(intents.drop_last(), lo);
    }
}

/// Once a group's bindings hit a missing buffer, the whole group does.
proof fn lemma_group_entries_err_persists(s: BridgeView, intents: Seq<BufferUsageIntent>, set: u32, k: int)
    requires
        0 <= k <= intents.len(),
        group_entries(s, intents.take(k), set) is Err,
    ensures
        group_entries(s, intents, set) == group_entries(s, intents.take(k), set),
    decreases intents.len() - k,
{
    if k < intents.len() {
        assert(intents.take(k + 1).drop_last() =~= intents.take(k));
        lemma_group_entries_err_persists(s, intents, set, k + 1);
    } else {
        assert(intents.take(k) =~= intents);
    }
}

impl BridgeState {
    /// Finds the smallest group index at least `lo` used by an intent.
    fn next_used_set(intents: &Vec<BufferUsageIntent>, lo: u64) -> (r: Option<u32>)
        ensures
            r == min_set_at_least(intents@, lo as int),
    {
        let n = intents.len();
        let mut best: Option<u32> = None;
        let mut i: usize = 0;
        assert(intents@.take(0) =~= Seq::<BufferUsageIntent>::empty());
        while i < n
            invariant
                n == intents@.len(),
                i <= n,
                best == min_set_at_least(intents@.take(i as int), lo as int),
            decreases n - i,
        {
            proof {
                lemma_min_set_step(intents@, lo as int, i as int);
            }
            let set = intents[i].set;
            if set as u64 >= lo {
                match best {
                    None => {
                        best = Some(set);
                    },
                    Some(b) => {
                        if set < b {
                            best = Some(set);
                        }
                    },
                }
            }
            i += 1;
        }
        assert(intents@.take(n as int) =~= intents@);
        best
    }

    /// Resolves the bindings of group `set` (see [`group_entries`]).
    fn plan_group_entries(&self, intents: &Vec<BufferUsageIntent>, set: u32) -> (r: Result<Vec<BindingPlan>, Error>)
        ensures
            match group_entries(self@, intents@, set) {
                Ok(entries) => r matches Ok(v) && v@ == entries,
                Err(e) => r == Err::<Vec<BindingPlan>, Error>(e),
            },
    {
        let n = intents.len();
        let mut entries: Vec<BindingPlan> = Vec::new();
        let mut i: usize = 0;
        assert(intents@.take(0) =~= Seq::<BufferUsageIntent>::empty());
        while i < n
            invariant
                n == intents@.len(),
                i <= n,
                group_entries(self@, intents@.take(i as int), set) == Ok::<Seq<BindingPlan>, Error>(entries@),
            decreases n - i,
        {
            proof {
                assert(intents@.take(i + 1).drop_last() =~= intents@.take(i as int));
            }
            let intent = intents[i];
            if intent.set == set {
                let buffer_size = match self.resources.buffers.get(&intent.buffer.0) {
                    Some(buffer) => buffer.size,
                    None => {
                        proof {
                            lemma_group_entries_err_persists(self@, intents@, set, i + 1);
                        }
                        return Err(Error::recoverable(ErrorKind::ResourceNotFound("buffer")));
                    },
                };
                let size = if intent.size == 0 { buffer_size } else { intent.size };
                entries.push(BindingPlan { binding: intent.binding, buffer: intent.buffer, offset: intent.offset, size });
            }
            i += 1;
        }
        assert(intents@.take(n as int) =~= intents@);
        Ok(entries)
    }

    /// Plans a compute dispatch: looks up its pipeline, groups its buffer
    /// intents by ascending group index, checks each group against the
    /// pipeline's layouts and resolves each buffer range (see
    /// [`dispatch_plan_of`]).
    pub fn record_compute_dispatch(&self, pass: &ComputePassDescriptor) -> (r: Result<ComputeDispatchPlan, Error>)
        ensures
            match dispatch_plan_of(self@, *pass) {
                Ok(groups) => r matches Ok(plan) && plan.pipeline == pass.pipeline
                    && plan.workgroup_count == pass.workgroup_count
                    && plan.groups@.map_values(|g: BindGroupPlan| group_view(g)) == groups,
                Err(e) => r matches Err(x) && x == e,
            },
    {
        let pipeline = match self.resources.compute_pipelines.get(&pass.pipeline.0) {
            Some(record) => *record,
            None => {
                return Err(Error::recoverable(ErrorKind::ResourceNotFound("compute_pipeline")));
            },
        };
        let ghost s = self@;
        let ghost intents = pass.buffer_intents@;
        let mut groups: Vec<BindGroupPlan> = Vec::new();
        let mut lo: u64 = 0;
        loop
            invariant
                s == self@,
                intents == pass.buffer_intents@,
                pipeline == s.compute_pipelines[pass.pipeline.0],
                s.compute_pipelines.contains_key(pass.pipeline.0),
                lo <= 0x1_0000_0000,
                groups_from(s, pipeline, intents, 0) == match groups_from(s, pipeline, intents, lo as int) {
                    Ok(rest) => Ok::<Seq<(u32, Seq<BindingPlan>)>, Error>(groups@.map_values(|g: BindGroupPlan| group_view(g)) + rest),
                    Err(e) => Err(e),
                },
            decreases 0x1_0000_0000 - lo,
        {
            let next = Self::next_used_set(&pass.buffer_intents, lo);
            proof {
                lemma_min_set_bound(intents, lo as int);
            }
            let set = match next {
                None => {
                    assert(groups@.map_values(|g: BindGroupPlan| group_view(g)) + Seq::<(u32, Seq<BindingPlan>)>::empty()
                        =~= groups@.map_values(|g: BindGroupPlan| group_view(g)));
                    return Ok(ComputeDispatchPlan {
                        pipeline: pass.pipeline,
                        groups,
                        workgroup_count: pass.workgroup_count,
                    });
                },
                Some(set) => set,
            };
            if set as usize >= pipeline.bind_group_layout_count {
                return Err(
                    Error::recoverable(ErrorKind::InvalidDescriptor("compute_bind_group_layout_missing")),
                );
            }
            let entries = self.plan_group_entries(&pass.buffer_intents, set)?;
            let ghost before = groups@.map_values(|g: BindGroupPlan| group_view(g));
            groups.push(BindGroupPlan { set, entries });
            proof {
                let after = groups@.map_values(|g: BindGroupPlan| group_view(g));
                assert(after =~= before.push((set, entries@)));
                match groups_from(s, pipeline, intents, set + 1) {
                    Ok(rest) => {
                        assert(before + (seq![(set, entries@)] + rest) =~= after + rest);
                    },
                    Err(e) => {},
                }
            }
            lo = set as u64 + 1;
        }
    }
}

} // verus!
