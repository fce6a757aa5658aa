//! Frame planning: which commands need the swapchain, which instances a pass
//! draws, its color and depth attachments, the per-object uniform buffer,
//! and the bind groups, offsets, meshes and pipelines of each draw.

use vstd::prelude::*;

use crate::descriptors::{
    at_least_one, DepthAttachmentLoad, DrawInstance, Extent2D, ImageFormat, IndexFormat,
    MaterialId, MeshId, PassColorTarget, PassDescriptor, RenderCommand, TextureId,
};
use crate::error::{fatal_error, recoverable_error, surface_not_attached_error, Error, ErrorKind};
use crate::init::OBJECT_MATRIX_SIZE;
use crate::numeric::{next_power_of_two, u32_next_power_of_two};
use crate::registry::{
    pipeline_step, BridgeState, BridgeView, DepthTarget, DepthTargetKey, PipelineLookup,
};

verus! {

broadcast use {
    vstd::std_specs::hash::group_hash_axioms,
};

/// Whether a command draws into the swapchain.
pub open spec fn draws_to_swapchain(command: RenderCommand) -> bool {
    match command {
        RenderCommand::DrawGraphics(pass) => pass.color_target == PassColorTarget::Swapchain,
        _ => false,
    }
}

/// Checks that a frame has commands and tells whether any of them draws into
/// the swapchain, so that a swapchain image must be acquired.
pub fn frame_needs_swapchain(commands: &Vec<RenderCommand>) -> (r: Result<bool, Error>)
    ensures
        commands@.len() == 0 ==> r == Err::<bool, Error>(recoverable_error(ErrorKind::InvalidDescriptor("frame_has_no_commands"))),
        commands@.len() > 0 ==> r == Ok::<bool, Error>(exists|i: int| 0 <= i < commands@.len() && draws_to_swapchain(#[trigger] commands@[i])),
{
    if commands.len() == 0 {
        return Err(Error::recoverable(ErrorKind::InvalidDescriptor("frame_has_no_commands")));
    }
    let n = commands.len();
    let mut i: usize = 0;
    while i < n
        invariant
            n == commands@.len(),
            i <= n,
            forall|j: int| 0 <= j < i ==> !draws_to_swapchain(#[trigger] commands@[j]),
        decreases n - i,
    {
        let hit = match &commands[i] {
            RenderCommand::DrawGraphics(pass) => match pass.color_target {
                PassColorTarget::Swapchain => true,
                _ => false,
            },
            _ => false,
        };
        if hit {
            assert(draws_to_swapchain(commands@[i as int]));
            return Ok(true);
        }
        i += 1;
    }
    Ok(false)
}

/// Whether an instance index is below `count`.
pub open spec fn index_below(count: nat) -> spec_fn(usize) -> bool {
    |i: usize| i < count
}

/// The instances a pass draws: all of them in order when it lists none, else
/// the listed ones that exist, in the listed order.
pub open spec fn draw_list_of(instance_count: nat, instance_indices: Seq<usize>) -> Seq<usize> {
    if instance_indices.len() == 0 {
        Seq::new(instance_count, |i: int| i as usize)
    } else {
        instance_indices.filter(index_below(instance_count))
    }
}

/// Lists the instances a pass draws.
pub fn draw_list(instance_count: usize, instance_indices: &Vec<usize>) -> (r: Vec<usize>)
    ensures
        r@ == draw_list_of(instance_count as nat, instance_indices@),
        forall|j: int| 0 <= j < r@.len() ==> #[trigger] r@[j] < instance_count,
{
    let mut r: Vec<usize> = Vec::new();
    if instance_indices.len() == 0 {
        let mut i: usize = 0;
        while i < instance_count
            invariant
                i <= instance_count,
                r@ == Seq::new(i as nat, |k: int| k as usize),
            decreases instance_count - i,
        {
            r.push(i);
            assert(r@ =~= Seq::new((i + 1) as nat, |k: int| k as usize));
            i += 1;
        }
        return r;
    }
    let n = instance_indices.len();
    let ghost pred = index_below(instance_count as nat);
    let mut j: usize = 0;
    assert(instance_indices@.take(0) =~= Seq::<usize>::empty());
    while j < n
        invariant
            n == instance_indices@.len(),
            n > 0,
            j <= n,
            pred == index_below(instance_count as nat),
            r@ == instance_indices@.take(j as int).filter(pred),
            forall|k: int| 0 <= k < r@.len() ==> #[trigger] r@[k] < instance_count,
        decreases n - j,
    {
        proof {
            reveal_with_fuel(Seq::filter, 1);
            assert(instance_indices@.take(j + 1).drop_last() =~= instance_indices@.take(j as int));
        }
        let index = instance_indices[j];
        assert(instance_indices@.take(j + 1).last() == index);
        assert(pred(index) == (index < instance_count));
        if index < instance_count {
            r.push(index);
        }
        j += 1;
    }
    assert(instance_indices@.take(n as int) =~= instance_indices@);
    r
}

/// Whether material `m` exists and tests depth.
pub open spec fn material_wants_depth(s: BridgeView, m: MaterialId) -> bool {
    s.materials.contains_key(m.0) && s.materials[m.0].enable_depth
}

/// Whether a pass needs a depth attachment: it asks for one, or one of its
/// draws uses a material that tests depth.
pub open spec fn pass_depth(s: BridgeView, pass: PassDescriptor, instances: Seq<DrawInstance>, draws: Seq<usize>) -> bool {
    pass.spec_uses_depth_attachment() || exists|j: int|
        0 <= j < draws.len() && material_wants_depth(s, #[trigger] instances[draws[j] as int].material)
}

/// The depth load a pass uses: nothing without depth, its own load when it
/// asks for a depth attachment, otherwise a clear.
pub open spec fn depth_load_of(pass: PassDescriptor, uses_depth: bool) -> DepthAttachmentLoad {
    if !uses_depth {
        DepthAttachmentLoad::Unused
    } else if pass.spec_uses_depth_attachment() {
        pass.depth_load
    } else {
        DepthAttachmentLoad::Clear
    }
}

/// Chooses the depth load of a pass.
pub fn effective_depth_load(pass: &PassDescriptor, uses_depth: bool) -> (r: DepthAttachmentLoad)
    ensures
        r == depth_load_of(*pass, uses_depth),
{
    if !uses_depth {
        return DepthAttachmentLoad::Unused;
    }
    if pass.uses_depth_attachment() {
        pass.depth_load
    } else {
        DepthAttachmentLoad::Clear
    }
}

/// Color attachment chosen for a pass.
#[derive(Debug, Clone, Copy, PartialEq, Eq, Structural)]
pub enum ColorTargetChoice {
    /// The acquired swapchain image.
    Swapchain,
    /// The render view of a texture, with its format.
    Texture { id: TextureId, format: ImageFormat },
}

/// Texture or fallback bound for a draw's material.
#[derive(Debug, Clone, Copy, PartialEq, Eq, Structural)]
pub enum BindGroupChoice {
    /// The bind group of the material's texture.
    Texture(TextureId),
    /// The built-in white texture.
    Fallback,
}

/// The bind group a material's draws use.
pub open spec fn bind_group_of(s: BridgeView, material: MaterialId) -> Result<BindGroupChoice, Error> {
    if !s.materials.contains_key(material.0) {
        Err(recoverable_error(ErrorKind::ResourceNotFound("material")))
    } else {
        match s.materials[material.0].texture {
            Some(t) => if s.textures.contains_key(t.0) {
                Ok(BindGroupChoice::Texture(t))
            } else {
                Err(recoverable_error(ErrorKind::ResourceNotFound("texture")))
            },
            None => Ok(BindGroupChoice::Fallback),
        }
    }
}

/// The color attachment of a pass: the swapchain image, which needs a
/// configured swapchain and an acquired image, or a texture that has a render
/// view.
pub open spec fn color_target_of(s: BridgeView, pass: PassDescriptor, has_swapchain_view: bool) -> Result<ColorTargetChoice, Error> {
    match pass.color_target {
        PassColorTarget::Swapchain => if s.swapchain is None {
            Err(fatal_error(ErrorKind::SurfaceNotAttached))
        } else if !has_swapchain_view {
            Err(recoverable_error(ErrorKind::InvalidDescriptor("swapchain_view_missing")))
        } else {
            Ok(ColorTargetChoice::Swapchain)
        },
        PassColorTarget::Texture(id) => if !s.textures.contains_key(id.0) {
            Err(recoverable_error(ErrorKind::ResourceNotFound("texture")))
        } else if !s.textures[id.0].has_render_view {
            Err(recoverable_error(ErrorKind::InvalidDescriptor("texture_missing_render_view")))
        } else {
            Ok(ColorTargetChoice::Texture { id, format: s.textures[id.0].format })
        },
    }
}

/// The per-object buffer capacity after making room for `required` objects:
/// unchanged when it is enough, else the larger of the next power of two and
/// twice the old capacity.
pub open spec fn grown_capacity(capacity: u32, required: u32) -> nat {
    if required <= capacity {
        capacity as nat
    } else {
        let p = next_power_of_two(required as nat);
        if p >= 2 * capacity { p } else { (2 * capacity) as nat }
    }
}

/// The key of the depth attachment of a pass.
pub open spec fn depth_key_of(s: BridgeView, pass: PassDescriptor) -> Result<DepthTargetKey, Error> {
    match pass.color_target {
        PassColorTarget::Swapchain => match s.swapchain {
            None => Err(fatal_error(ErrorKind::SurfaceNotAttached)),
            Some(e) => Ok(DepthTargetKey::Swapchain { width: at_least_one(e.width), height: at_least_one(e.height) }),
        },
        PassColorTarget::Texture(id) => Ok(DepthTargetKey::Texture(id)),
    }
}

/// Index of the first depth attachment with `key`.
pub open spec fn depth_index(targets: Seq<DepthTarget>, key: DepthTargetKey) -> Option<int>
    decreases targets.len(),
{
    if targets.len() == 0 {
        None
    } else {
        match depth_index(targets.drop_last(), key) {
            Some(i) => Some(i),
            None => if targets.last().key == key {
                Some(targets.len() - 1)
            } else {
                None
            },
        }
    }
}

/// A found index holds the key, and nothing before it does; no index means
/// no entry holds the key.
pub proof fn lemma_depth_index(targets: Seq<DepthTarget>, key: DepthTargetKey)
    ensures
        depth_index(targets, key) matches Some(i) ==> 0 <= i < targets.len() && targets[i].key == key
            && forall|j: int| 0 <= j < i ==> targets[j].key != key,
        depth_index(targets, key) is None ==> forall|j: int| 0 <= j < targets.len() ==> targets[j].key != key,
    decreases targets.len(),
{
    if targets.len() > 0 {
        lemma_depth_index(targets.drop_last(), key);
        assert forall|j: int| 0 <= j < targets.len() - 1 implies targets[j] == targets.drop_last()[j] by {}
    }
}

/// What a pass needs of its depth attachment.
#[derive(Debug, Clone, Copy, PartialEq, Eq, Structural)]
pub struct DepthTargetRequest {
    /// Key of the attachment.
    pub key: DepthTargetKey,
    /// Its width.
    pub width: u32,
    /// Its height.
    pub height: u32,
    /// Whether it has to be (re)created now.
    pub recreate: bool,
}

/// The outcome of making sure a pass has a depth attachment of the right
/// size: a swapchain attachment is recreated when missing or of another
/// size, a texture attachment when missing (at the texture's size).
pub open spec fn depth_step(s: BridgeView, pass: PassDescriptor) -> (BridgeView, Result<DepthTargetRequest, Error>) {
    match depth_key_of(s, pass) {
        Err(e) => (s, Err(e)),
        Ok(key) => {
            let found = depth_index(s.depth_targets, key);
            let recreate = match found {
                None => true,
                Some(i) => match key {
                    DepthTargetKey::Swapchain { width, height } => s.depth_targets[i].width != width
                        || s.depth_targets[i].height != height,
                    DepthTargetKey::Texture(_) => false,
                },
            };
            if !recreate {
                let t = s.depth_targets[found->0];
                (s, Ok(DepthTargetRequest { key, width: t.width, height: t.height, recreate: false }))
            } else {
                let size: Result<(u32, u32), Error> = match key {
                    DepthTargetKey::Swapchain { width, height } => Ok((width, height)),
                    DepthTargetKey::Texture(id) => if s.textures.contains_key(id.0) {
                        Ok((s.textures[id.0].width, s.textures[id.0].height))
                    } else {
                        Err(recoverable_error(ErrorKind::ResourceNotFound("texture")))
                    },
                };
                match size {
                    Err(e) => (s, Err(e)),
                    Ok((w, h)) => {
                        let entry = DepthTarget { key, width: w, height: h };
                        let targets = match found {
                            Some(i) => s.depth_targets.update(i, entry),
                            None => s.depth_targets.push(entry),
                        };
                        (
                            BridgeView { depth_targets: targets, ..s },
                            Ok(DepthTargetRequest { key, width: w, height: h, recreate: true }),
                        )
                    },
                }
            }
        },
    }
}

/// The plan of one draw of a pass.
#[derive(Debug, Clone, Copy, PartialEq, Eq, Structural)]
pub struct DrawPlan {
    /// Position of the draw in the pass, and of its object in the buffer.
    pub slot: usize,
    /// Index of the drawn instance in the scene.
    pub instance_index: usize,
    /// Mesh drawn.
    pub mesh: MeshId,
    /// Material drawn with.
    pub material: MaterialId,
    /// Texture bind group of the material.
    pub bind_group: BindGroupChoice,
    /// Whether the material bind group changes at this draw.
    pub rebind_material: bool,
    /// Byte offset of the draw's object in the per-object buffer.
    pub object_offset: u32,
    /// Indices to draw.
    pub index_count: u32,
    /// Element format of the mesh's indices.
    pub index_format: IndexFormat,
    /// Render pipeline of the draw.
    pub pipeline: PipelineLookup,
}

/// The outcome of planning draw `j` of a pass: its material's bind group, its
/// mesh and its pipeline, in that order.
pub open spec fn draw_step(s: BridgeView, instances: Seq<DrawInstance>, draws: Seq<usize>, j: int, pass_uses_depth: bool) -> (BridgeView, Result<DrawPlan, Error>) {
    let index = draws[j];
    let instance = instances[index as int];
    match bind_group_of(s, instance.material) {
        Err(e) => (s, Err(e)),
        Ok(bind_group) => if !s.meshes.contains_key(instance.mesh.0) {
            (s, Err(recoverable_error(ErrorKind::ResourceNotFound("mesh"))))
        } else {
            let mesh = s.meshes[instance.mesh.0];
            let (s2, r) = pipeline_step(s, instance.material, mesh.vertex_layout_id, pass_uses_depth);
            match r {
                Err(e) => (s2, Err(e)),
                Ok(pipeline) => (
                    s2,
                    Ok(DrawPlan {
                        slot: j as usize,
                        instance_index: index,
                        mesh: instance.mesh,
                        material: instance.material,
                        bind_group,
                        rebind_material: j == 0 || instances[draws[j - 1] as int].material != instance.material,
                        object_offset: (j * s.object_aligned_stride) as u32,
                        index_count: mesh.index_count,
                        index_format: mesh.index_format,
                        pipeline,
                    }),
                ),
            }
        },
    }
}

/// The outcome of planning the first `n` draws of a pass, stopping at the
/// first failure; lookups made before it stay in the pipeline cache.
pub open spec fn draws_upto(s: BridgeView, instances: Seq<DrawInstance>, draws: Seq<usize>, n: nat, pass_uses_depth: bool) -> (BridgeView, Result<Seq<DrawPlan>, Error>)
    decreases n,
{
    if n == 0 {
        (s, Ok(Seq::empty()))
    } else {
        let (s1, r1) = draws_upto(s, instances, draws, (n - 1) as nat, pass_uses_depth);
        match r1 {
            Err(e) => (s1, Err(e)),
            Ok(plans) => {
                let (s2, r2) = draw_step(s1, instances, draws, n - 1, pass_uses_depth);
                match r2 {
                    Err(e) => (s2, Err(e)),
                    Ok(p) => (s2, Ok(plans.push(p))),
                }
            },
        }
    }
}

/// Planning draws leaves the per-object stride alone.
pub proof fn lemma_draws_keep_stride(s: BridgeView, instances: Seq<DrawInstance>, draws: Seq<usize>, n: nat, pass_uses_depth: bool)
    ensures
        draws_upto(s, instances, draws, n, pass_uses_depth).0.object_aligned_stride == s.object_aligned_stride,
    decreases n,
{
    if n > 0 {
        lemma_draws_keep_stride(s, instances, draws, (n - 1) as nat, pass_uses_depth);
    }
}

/// Once a draw fails, planning more draws changes nothing further.
pub proof fn lemma_draws_err_persists(s: BridgeView, instances: Seq<DrawInstance>, draws: Seq<usize>, k: nat, n: nat, pass_uses_depth: bool)
    requires
        k <= n,
        draws_upto(s, instances, draws, k, pass_uses_depth).1 is Err,
    ensures
        draws_upto(s, instances, draws, n, pass_uses_depth) == draws_upto(s, instances, draws, k, pass_uses_depth),
    decreases n - k,
{
    if k < n {
        lemma_draws_err_persists(s, instances, draws, k, (n - 1) as nat, pass_uses_depth);
    }
}

impl BridgeState {
    /// Tells whether a pass needs a depth attachment (see [`pass_depth`]).
    pub fn pass_uses_depth(&self, pass: &PassDescriptor, instances: &Vec<DrawInstance>, draws: &Vec<usize>) -> (r: bool)
        requires
            forall|j: int| 0 <= j < draws@.len() ==> #[trigger] draws@[j] < instances@.len(),
        ensures
            r == pass_depth(self@, *pass, instances@, draws@),
    {
        if pass.uses_depth_attachment() {
            return true;
        }
        let n = draws.len();
        let mut j: usize = 0;
        while j < n
            invariant
                n == draws@.len(),
                j <= n,
                forall|k: int| 0 <= k < draws@.len() ==> #[trigger] draws@[k] < instances@.len(),
                forall|k: int| 0 <= k < j ==> !material_wants_depth(self@, #[trigger] instances@[draws@[k] as int].material),
            decreases n - j,
        {
            let instance = instances[draws[j]];
            let wants = match self.resources.materials.get(&instance.material.0) {
                Some(material) => material.enable_depth,
                None => false,
            };
            if wants {
                assert(material_wants_depth(self@, instances@[draws@[j as int] as int].material));
                return true;
            }
            j += 1;
        }
        false
    }

    /// Chooses the color attachment of a pass (see [`color_target_of`]).
    pub fn resolve_color_target(&self, pass: &PassDescriptor, has_swapchain_view: bool) -> (r: Result<ColorTargetChoice, Error>)
        ensures
            r == color_target_of(self@, *pass, has_swapchain_view),
    {
        match pass.color_target {
            PassColorTarget::Swapchain => {
                if self.swapchain.is_none() {
                    return Err(surface_not_attached_error());
                }
                if !has_swapchain_view {
                    return Err(Error::recoverable(ErrorKind::InvalidDescriptor("swapchain_view_missing")));
                }
                Ok(ColorTargetChoice::Swapchain)
            },
            PassColorTarget::Texture(id) => {
                let texture = match self.resources.textures.get(&id.0) {
                    Some(texture) => *texture,
                    None => {
                        return Err(Error::recoverable(ErrorKind::ResourceNotFound("texture")));
                    },
                };
                if !texture.has_render_view {
                    return Err(
                        Error::recoverable(ErrorKind::InvalidDescriptor("texture_missing_render_view")),
                    );
                }
                Ok(ColorTargetChoice::Texture { id, format: texture.format })
            },
        }
    }

    /// Makes room for `required` objects in the per-object uniform buffer.
    /// Returns the byte size of the new buffer when it has to grow.
    pub fn ensure_object_buffer_capacity(&mut self, required: u32) -> (r: Option<u64>)
        requires
            required > old(self).object_buffer_capacity ==> required <= 0x8000_0000 && 2 * old(self).object_buffer_capacity <= u32::MAX,
        ensures
            final(self)@ == (BridgeView { object_buffer_capacity: grown_capacity(old(self).object_buffer_capacity, required) as u32, ..old(self)@ }),
            required <= old(self).object_buffer_capacity ==> r is None,
            required > old(self).object_buffer_capacity ==> r == Some((old(self).object_aligned_stride * grown_capacity(old(self).object_buffer_capacity, required)) as u64),
    {
        if required <= self.object_buffer_capacity {
            return None;
        }
        let p = u32_next_power_of_two(required);
        let doubled = self.object_buffer_capacity * 2;
        let new_capacity = if p >= doubled { p } else { doubled };
        assert((self.object_aligned_stride as u64) * (new_capacity as u64) <= u64::MAX) by (nonlinear_arith)
            requires
                self.object_aligned_stride <= u32::MAX,
                new_capacity <= u32::MAX,
        ;
        let new_size = self.object_aligned_stride as u64 * new_capacity as u64;
        self.object_buffer_capacity = new_capacity;
        Some(new_size)
    }

    /// Finds the index of the depth attachment with `key`.
    fn find_depth_target(&self, key: DepthTargetKey) -> (r: Option<usize>)
        ensures
            r matches Some(i) ==> depth_index(self.depth_targets@, key) == Some(i as int),
            r is None ==> depth_index(self.depth_targets@, key) is None,
    {
        proof {
            lemma_depth_index(self.depth_targets@, key);
        }
        let n = self.depth_targets.len();
        let mut i: usize = 0;
        while i < n
            invariant
                n == self.depth_targets@.len(),
                i <= n,
                forall|j: int| 0 <= j < i ==> self.depth_targets@[j].key != key,
            decreases n - i,
        {
            if self.depth_targets[i].key == key {
                proof {
                    lemma_depth_index(self.depth_targets@, key);
                    if let Some(i0) = depth_index(self.depth_targets@, key) {
                        if i0 < i {
                            assert(self.depth_targets@[i0].key != key);
                        }
                        if i0 > i {
                            assert(self.depth_targets@[i as int].key != key);
                        }
                    }
                }
                return Some(i);
            }
            i += 1;
        }
        None
    }

    /// Makes sure a pass has a depth attachment of the right size (see
    /// [`depth_step`]).
    pub fn ensure_depth_target(&mut self, pass: &PassDescriptor) -> (r: Result<DepthTargetRequest, Error>)
        ensures
            final(self)@ == depth_step(old(self)@, *pass).0,
            r == depth_step(old(self)@, *pass).1,
    {
        let ghost s = self@;
        let key = match pass.color_target {
            PassColorTarget::Swapchain => match self.swapchain {
                None => {
                    return Err(surface_not_attached_error());
                },
                Some(extent) => DepthTargetKey::Swapchain {
                    width: if extent.width == 0 { 1 } else { extent.width },
                    height: if extent.height == 0 { 1 } else { extent.height },
                },
            },
            PassColorTarget::Texture(id) => DepthTargetKey::Texture(id),
        };
        proof {
            lemma_depth_index(self.depth_targets@, key);
        }
        let found = self.find_depth_target(key);

        let recreate = match found {
            None => true,
            Some(i) => match key {
                DepthTargetKey::Swapchain { width, height } => self.depth_targets[i].width != width
                    || self.depth_targets[i].height != height,
                DepthTargetKey::Texture(_) => false,
            },
        };
        if !recreate {
            let i = found.unwrap();
            let t = self.depth_targets[i];

            return Ok(DepthTargetRequest { key, width: t.width, height: t.height, recreate: false });
        }
        let (width, height) = match key {
            DepthTargetKey::Swapchain { width, height } => (width, height),
            DepthTargetKey::Texture(id) => match self.resources.textures.get(&id.0) {
                Some(texture) => (texture.width, texture.height),
                None => {
                    return Err(Error::recoverable(ErrorKind::ResourceNotFound("texture")));
                },
            },
        };
        let entry = DepthTarget { key, width, height };
        match found {
            Some(i) => {
                self.depth_targets.set(i, entry);
            },
            None => {
                self.depth_targets.push(entry);
            },
        }
        assert(self@ =~= depth_step(s, *pass).0);
        Ok(DepthTargetRequest { key, width, height, recreate: true })
    }

    /// Chooses the texture bind group of a material's draws (see
    /// [`bind_group_of`]).
    pub fn material_bind_group_for_instance(&self, material_id: MaterialId) -> (r: Result<BindGroupChoice, Error>)
        ensures
            r == bind_group_of(self@, material_id),
    {
        let texture = match self.resources.materials.get(&material_id.0) {
            Some(material) => material.texture,
            None => {
                return Err(Error::recoverable(ErrorKind::ResourceNotFound("material")));
            },
        };
        match texture {
            Some(texture_id) => {
                if self.resources.textures.contains_key(&texture_id.0) {
                    Ok(BindGroupChoice::Texture(texture_id))
                } else {
                    Err(Error::recoverable(ErrorKind::ResourceNotFound("texture")))
                }
            },
            None => Ok(BindGroupChoice::Fallback),
        }
    }

    /// Plans one draw (see [`draw_step`]).
    fn plan_draw(&mut self, instances: &Vec<DrawInstance>, draws: &Vec<usize>, j: usize, pass_uses_depth: bool) -> (r: Result<DrawPlan, Error>)
        requires
            j < draws@.len(),
            forall|k: int| 0 <= k < draws@.len() ==> #[trigger] draws@[k] < instances@.len(),
            j * old(self).object_aligned_stride <= u32::MAX,
        ensures
            final(self)@ == draw_step(old(self)@, instances@, draws@, j as int, pass_uses_depth).0,
            r == draw_step(old(self)@, instances@, draws@, j as int, pass_uses_depth).1,
    {
        let index = draws[j];
        let instance = instances[index];
        let bind_group = self.material_bind_group_for_instance(instance.material)?;
        let rebind_material = j == 0 || instances[draws[j - 1]].material != instance.material;
        let stride = self.object_aligned_stride;
        let object_offset = if stride == 0 {
            0
        } else {
            assert(j <= u32::MAX) by (nonlinear_arith)
                requires
                    j * stride <= u32::MAX,
                    stride >= 1,
            ;
            let slot = j as u32;
            assert(slot == j);
            slot * stride
        };
        proof {
            if stride == 0 {
                assert(j * stride == 0) by (nonlinear_arith)
                    requires
                        stride == 0,
                ;
            }
        }
        assert(object_offset == (j * self@.object_aligned_stride) as u32);
        assert(rebind_material == (j == 0 || instances@[draws@[j - 1] as int].material != instances@[draws@[j as int] as int].material));
        let (vertex_layout_id, index_count, index_format) = match self.resources.meshes.get(&instance.mesh.0) {
            Some(mesh) => (mesh.vertex_layout_id, mesh.index_count, mesh.index_format),
            None => {
                assert(!self@.meshes.contains_key(instance.mesh.0));
                return Err(Error::recoverable(ErrorKind::ResourceNotFound("mesh")));
            },
        };
        assert(self@.meshes.contains_key(instance.mesh.0));
        assert(self@.meshes[instance.mesh.0] == self.resources.meshes@[instance.mesh.0]@);
        let pipeline = self.pipeline_for_draw(instance.material, vertex_layout_id, pass_uses_depth)?;
        Ok(DrawPlan {
            slot: j,
            instance_index: index,
            mesh: instance.mesh,
            material: instance.material,
            bind_group,
            rebind_material,
            object_offset,
            index_count,
            index_format,
            pipeline,
        })
    }

    /// Plans the draws of a pass in order: bind groups, object offsets, meshes
    /// and pipelines (see [`draws_upto`]).
    pub fn plan_draws(&mut self, instances: &Vec<DrawInstance>, draws: &Vec<usize>, pass_uses_depth: bool) -> (r: Result<Vec<DrawPlan>, Error>)
        requires
            forall|j: int| 0 <= j < draws@.len() ==> #[trigger] draws@[j] < instances@.len(),
            draws@.len() * old(self).object_aligned_stride <= u32::MAX + old(self).object_aligned_stride,
        ensures
            final(self)@ == draws_upto(old(self)@, instances@, draws@, draws@.len(), pass_uses_depth).0,
            match draws_upto(old(self)@, instances@, draws@, draws@.len(), pass_uses_depth).1 {
                Ok(plans) => r matches Ok(v) && v@ == plans,
                Err(e) => r == Err::<Vec<DrawPlan>, Error>(e),
            },
    {
        let ghost s = self@;
        let n = draws.len();
        let mut plans: Vec<DrawPlan> = Vec::new();
        let mut j: usize = 0;
        while j < n
            invariant
                n == draws@.len(),
                j <= n,
                s == old(self)@,
                forall|k: int| 0 <= k < draws@.len() ==> #[trigger] draws@[k] < instances@.len(),
                draws@.len() * s.object_aligned_stride <= u32::MAX + s.object_aligned_stride,
                self@ == draws_upto(s, instances@, draws@, j as nat, pass_uses_depth).0,
                draws_upto(s, instances@, draws@, j as nat, pass_uses_depth).1 == Ok::<Seq<DrawPlan>, Error>(plans@),
            decreases n - j,
        {
            proof {
                lemma_draws_keep_stride(s, instances@, draws@, j as nat, pass_uses_depth);
                assert(j * s.object_aligned_stride + s.object_aligned_stride <= n * s.object_aligned_stride) by (nonlinear_arith)
                    requires
                        j < n,
                ;
            }
            match self.plan_draw(instances, draws, j, pass_uses_depth) {
                Ok(plan) => {
                    plans.push(plan);
                },
                Err(e) => {
                    proof {
                        lemma_draws_err_persists(s, instances@, draws@, (j + 1) as nat, n as nat, pass_uses_depth);
                    }
                    return Err(e);
                },
            }
            j += 1;
        }
        Ok(plans)
    }
}

/// Byte `i` of the per-object uniform buffer: byte `i % stride` of block
/// `i / stride` of `blocks` (blocks of `OBJECT_MATRIX_SIZE` bytes) when it
/// falls inside the block, zero in the padding after it.
pub open spec fn object_uniform_byte(blocks: Seq<u8>, stride: nat, i: int) -> u8 {
    if i % (stride as int) < OBJECT_MATRIX_SIZE {
        blocks[(i / (stride as int)) * OBJECT_MATRIX_SIZE + i % (stride as int)]
    } else {
        0u8
    }
}

/// The per-object uniform buffer of the draws whose object blocks are
/// `blocks`, in order: one block every `stride` bytes, zero-padded.
pub open spec fn object_uniform_layout(blocks: Seq<u8>, stride: nat) -> Seq<u8> {
    Seq::new(
        ((blocks.len() / (OBJECT_MATRIX_SIZE as nat)) * stride) as nat,
        |i: int| object_uniform_byte(blocks, stride, i),
    )
}

/// Position `c` of slot `k` is byte `k * stride + c`.
proof fn lemma_slot_position(k: int, c: int, stride: int)
    requires
        stride > 0,
        0 <= c < stride,
        k >= 0,
    ensures
        (k * stride + c) / stride == k,
        (k * stride + c) % stride == c,
{
    vstd::arithmetic::div_mod::lemma_fundamental_div_mod_converse(k * stride + c, stride, k, c);
}

/// Lays out the per-object uniform buffer: block `k` of `blocks` (one
/// `OBJECT_MATRIX_SIZE`-byte object block per draw) at byte `k * stride`,
/// zeros elsewhere. A block wider than the stride would not fit in the
/// buffer, which the precondition leaves out.
pub fn object_uniform_bytes(blocks: &Vec<u8>, stride: u32) -> (r: Vec<u8>)
    requires
        blocks@.len() % (OBJECT_MATRIX_SIZE as nat) == 0,
        blocks@.len() == 0 || stride >= OBJECT_MATRIX_SIZE,
        (blocks@.len() / (OBJECT_MATRIX_SIZE as nat)) * stride <= usize::MAX,
    ensures
        r@ == object_uniform_layout(blocks@, stride as nat),
{
    let block: usize = 64;
    let n: usize = blocks.len() / block;
    let stride: usize = stride as usize;
    let ghost total: int = n * stride;
    let mut r: Vec<u8> = Vec::new();
    let mut k: usize = 0;
    while k < n
        invariant
            block == OBJECT_MATRIX_SIZE,
            n == blocks@.len() / (OBJECT_MATRIX_SIZE as nat),
            blocks@.len() == n * OBJECT_MATRIX_SIZE,
            blocks@.len() <= usize::MAX,
            n == 0 || stride >= OBJECT_MATRIX_SIZE,
            total == n * stride,
            total <= usize::MAX,
            k <= n,
            r@.len() == k * stride,
            forall|i: int| 0 <= i < r@.len() ==> #[trigger] r@[i] == object_uniform_byte(blocks@, stride as nat, i),
        decreases n - k,
    {
        assert((k + 1) * stride <= n * stride) by (nonlinear_arith)
            requires
                k + 1 <= n,
        ;
        assert(k * OBJECT_MATRIX_SIZE + OBJECT_MATRIX_SIZE <= n * OBJECT_MATRIX_SIZE) by (nonlinear_arith)
            requires
                k + 1 <= n,
        ;
        assert(k * stride <= (k + 1) * stride) by (nonlinear_arith);
        assert(k * stride + stride == (k + 1) * stride) by (nonlinear_arith);
        let base: usize = k * stride;
        let first: usize = k * block;
        let mut c: usize = 0;
        while c < stride
            invariant
                block == OBJECT_MATRIX_SIZE,
                stride >= OBJECT_MATRIX_SIZE,
                base == k * stride,
                first == k * OBJECT_MATRIX_SIZE,
                first + OBJECT_MATRIX_SIZE <= blocks@.len(),
                base + stride <= usize::MAX,
                c <= stride,
                r@.len() == base + c,
                forall|i: int| 0 <= i < r@.len() ==> #[trigger] r@[i] == object_uniform_byte(blocks@, stride as nat, i),
            decreases stride - c,
        {
            proof {
                lemma_slot_position(k as int, c as int, stride as int);
            }
            if c < block {
                r.push(blocks[first + c]);
            } else {
                r.push(0u8);
            }
            assert(r@[base + c] == object_uniform_byte(blocks@, stride as nat, base + c));
            c += 1;
        }
        assert((k + 1) * stride == k * stride + stride) by (nonlinear_arith);
        k += 1;
    }
    assert(r@ =~= object_uniform_layout(blocks@, stride as nat));
    r
}

} // verus!
