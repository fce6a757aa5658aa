//! Instance, device and surface decisions: descriptor checks, swapchain
//! configuration, attaching and resizing a surface, and the retry policy for
//! acquiring a swapchain image.

use vstd::prelude::*;

use crate::descriptors::{at_least_one, DeviceDescriptor, Extent2D, InstanceDescriptor, QueueCategory};
use crate::error::{fatal_error, recoverable_error, surface_not_attached_error, Error, ErrorKind};
use crate::registry::{BridgeState, BridgeView};
use crate::wgpu_api::{srgb_format, texture_format_is_srgb};

verus! {

/// Checks that an instance needs no instance extensions, which this backend
/// cannot enable.
pub fn check_instance_descriptor(descriptor: &InstanceDescriptor) -> (r: Result<(), Error>)
    ensures
        descriptor.required_instance_extensions@.len() == 0 ==> r is Ok,
        descriptor.required_instance_extensions@.len() > 0 ==> r == Err::<(), Error>(
            recoverable_error(ErrorKind::Unsupported("required_instance_extensions_not_supported")),
        ),
{
    if descriptor.required_instance_extensions.len() != 0 {
        return Err(
            Error::recoverable(ErrorKind::Unsupported("required_instance_extensions_not_supported")),
        );
    }
    Ok(())
}

/// Whether a device descriptor asks for at least one graphics queue.
pub open spec fn has_graphics_queue(descriptor: DeviceDescriptor) -> bool {
    exists|i: int|
        0 <= i < descriptor.queues@.len() && (#[trigger] descriptor.queues@[i]).category == QueueCategory::Graphics
            && descriptor.queues@[i].count > 0
}

/// The first reason a device descriptor cannot be served, if any.
pub open spec fn device_fault(descriptor: DeviceDescriptor) -> Option<ErrorKind> {
    if !descriptor.enable_swapchain {
        Some(ErrorKind::Unsupported("disable_swapchain_not_supported"))
    } else if descriptor.required_features.sampler_anisotropy {
        Some(ErrorKind::Unsupported("sampler_anisotropy_not_supported"))
    } else if descriptor.required_features.wide_lines {
        Some(ErrorKind::Unsupported("wide_lines_not_supported"))
    } else if !has_graphics_queue(descriptor) {
        Some(ErrorKind::Unsupported("graphics_queue_required"))
    } else {
        None
    }
}

/// Device features to request from the adapter.
#[derive(Debug, Clone, Copy, PartialEq, Eq, Structural)]
pub struct DeviceRequest {
    /// Whether line polygon mode is requested (for non-solid fill modes).
    pub polygon_mode_line: bool,
}

/// Checks a device descriptor and derives the features to request.
pub fn check_device_descriptor(descriptor: &DeviceDescriptor) -> (r: Result<DeviceRequest, Error>)
    ensures
        match device_fault(*descriptor) {
            Some(k) => r == Err::<DeviceRequest, Error>(recoverable_error(k)),
            None => r == Ok::<DeviceRequest, Error>(
                DeviceRequest { polygon_mode_line: descriptor.required_features.fill_mode_non_solid },
            ),
        },
{
    if !descriptor.enable_swapchain {
        return Err(Error::recoverable(ErrorKind::Unsupported("disable_swapchain_not_supported")));
    }
    if descriptor.required_features.sampler_anisotropy {
        return Err(Error::recoverable(ErrorKind::Unsupported("sampler_anisotropy_not_supported")));
    }
    if descriptor.required_features.wide_lines {
        return Err(Error::recoverable(ErrorKind::Unsupported("wide_lines_not_supported")));
    }
    let n = descriptor.queues.len();
    let mut found = false;
    let mut i: usize = 0;
    while i < n
        invariant
            n == descriptor.queues@.len(),
            i <= n,
            found == exists|j: int|
                0 <= j < i && (#[trigger] descriptor.queues@[j]).category == QueueCategory::Graphics
                    && descriptor.queues@[j].count > 0,
        decreases n - i,
    {
        let request = descriptor.queues[i];
        if request.category == QueueCategory::Graphics && request.count > 0 {
            found = true;
        }
        i += 1;
    }
    if !found {
        return Err(Error::recoverable(ErrorKind::Unsupported("graphics_queue_required")));
    }
    Ok(DeviceRequest { polygon_mode_line: descriptor.required_features.fill_mode_non_solid })
}

/// Checks that the adapter offers the requested features.
pub fn check_adapter_features(request: DeviceRequest, adapter_has_polygon_mode_line: bool) -> (r: Result<(), Error>)
    ensures
        (request.polygon_mode_line && !adapter_has_polygon_mode_line) ==> r == Err::<(), Error>(
            recoverable_error(ErrorKind::Unsupported("required_device_features_unavailable")),
        ),
        !(request.polygon_mode_line && !adapter_has_polygon_mode_line) ==> r is Ok,
{
    if request.polygon_mode_line && !adapter_has_polygon_mode_line {
        return Err(
            Error::recoverable(ErrorKind::Unsupported("required_device_features_unavailable")),
        );
    }
    Ok(())
}

/// Presentation modes a surface may offer.
#[derive(Debug, Clone, Copy, PartialEq, Eq, Structural)]
pub enum PresentMode {
    AutoVsync,
    AutoNoVsync,
    Fifo,
    FifoRelaxed,
    Immediate,
    Mailbox,
}

/// The swapchain configuration chosen from a surface's capabilities.
#[derive(Debug, Clone, Copy, PartialEq, Eq, Structural)]
pub struct SwapchainChoice {
    /// Index of the chosen texture format among the offered ones.
    pub format_index: usize,
    /// Chosen presentation mode.
    pub present_mode: PresentMode,
    /// Index of the chosen alpha mode among the offered ones.
    pub alpha_mode_index: usize,
    /// Width, at least one.
    pub width: u32,
    /// Height, at least one.
    pub height: u32,
}

/// The first sRGB format, else the first format.
pub open spec fn format_choice(srgb: Seq<bool>) -> Option<usize> {
    if exists|i: int| 0 <= i < srgb.len() && srgb[i] {
        Some((choose|i: int| 0 <= i < srgb.len() && srgb[i] && forall|j: int| 0 <= j < i ==> !srgb[j]) as usize)
    } else if srgb.len() > 0 {
        Some(0usize)
    } else {
        None
    }
}

/// Mailbox when offered, else FIFO when offered, else the first mode.
pub open spec fn present_mode_choice(modes: Seq<PresentMode>) -> Option<PresentMode> {
    if modes.contains(PresentMode::Mailbox) {
        Some(PresentMode::Mailbox)
    } else if modes.contains(PresentMode::Fifo) {
        Some(PresentMode::Fifo)
    } else if modes.len() > 0 {
        Some(modes[0])
    } else {
        None
    }
}

/// The swapchain configuration for the offered capabilities, or
/// `NoCompatibleDevice` when formats, modes or alpha modes are missing.
pub open spec fn swapchain_choice(srgb: Seq<bool>, modes: Seq<PresentMode>, alpha_mode_count: nat, width: u32, height: u32) -> Result<SwapchainChoice, Error> {
    match format_choice(srgb) {
        None => Err(fatal_error(ErrorKind::NoCompatibleDevice)),
        Some(format_index) => match present_mode_choice(modes) {
            None => Err(fatal_error(ErrorKind::NoCompatibleDevice)),
            Some(present_mode) => if alpha_mode_count == 0 {
                Err(fatal_error(ErrorKind::NoCompatibleDevice))
            } else {
                Ok(SwapchainChoice {
                    format_index,
                    present_mode,
                    alpha_mode_index: 0,
                    width: at_least_one(width),
                    height: at_least_one(height),
                })
            },
        },
    }
}

/// Chooses a swapchain configuration from whether each offered format is
/// sRGB, the offered presentation modes and the number of alpha modes.
pub fn choose_swapchain(srgb: &Vec<bool>, present_modes: &Vec<PresentMode>, alpha_mode_count: usize, width: u32, height: u32) -> (r: Result<SwapchainChoice, Error>)
    ensures
        r == swapchain_choice(srgb@, present_modes@, alpha_mode_count as nat, width, height),
{
    let n = srgb.len();
    let mut format_index: Option<usize> = None;
    let mut i: usize = 0;
    while i < n && format_index.is_none()
        invariant
            n == srgb@.len(),
            i <= n,
            format_index is None ==> forall|j: int| 0 <= j < i ==> !srgb@[j],
            format_index matches Some(k) ==> k < n && srgb@[k as int] && forall|j: int| 0 <= j < k ==> !srgb@[j],
        decreases n - i,
    {
        if srgb[i] {
            format_index = Some(i);
        }
        i += 1;
    }
    let format_index = match format_index {
        Some(k) => {
            proof {
                let spec_k = choose|j: int| 0 <= j < srgb@.len() && srgb@[j] && forall|l: int| 0 <= l < j ==> !srgb@[l];
                assert(0 <= k < srgb@.len() && srgb@[k as int]);
                if spec_k < k {
                    assert(!srgb@[spec_k]);
                }
                if spec_k > k {
                    assert(!srgb@[k as int]);
                }
            }
            k
        },
        None => {
            assert(forall|j: int| 0 <= j < srgb@.len() ==> !srgb@[j]);
            if n == 0 {
                return Err(Error::fatal(ErrorKind::NoCompatibleDevice));
            }
            0
        },
    };
    let mut has_mailbox = false;
    let mut has_fifo = false;
    let m = present_modes.len();
    let mut j: usize = 0;
    while j < m
        invariant
            m == present_modes@.len(),
            j <= m,
            has_mailbox == present_modes@.take(j as int).contains(PresentMode::Mailbox),
            has_fifo == present_modes@.take(j as int).contains(PresentMode::Fifo),
        decreases m - j,
    {
        proof {
            let next = present_modes@.take(j + 1);
            assert(next =~= present_modes@.take(j as int).push(present_modes@[j as int]));
            if present_modes@.take(j as int).contains(PresentMode::Mailbox) {
                let w = choose|w: int| 0 <= w < j && present_modes@.take(j as int)[w] == PresentMode::Mailbox;
                assert(next[w] == PresentMode::Mailbox);
            }
            if present_modes@.take(j as int).contains(PresentMode::Fifo) {
                let w = choose|w: int| 0 <= w < j && present_modes@.take(j as int)[w] == PresentMode::Fifo;
                assert(next[w] == PresentMode::Fifo);
            }
            assert(next[j as int] == present_modes@[j as int]);
        }
        if present_modes[j] == PresentMode::Mailbox {
            has_mailbox = true;
        }
        if present_modes[j] == PresentMode::Fifo {
            has_fifo = true;
        }
        j += 1;
    }
    assert(present_modes@.take(m as int) =~= present_modes@);
    let present_mode = if has_mailbox {
        PresentMode::Mailbox
    } else if has_fifo {
        PresentMode::Fifo
    } else if m > 0 {
        present_modes[0]
    } else {
        return Err(Error::fatal(ErrorKind::NoCompatibleDevice));
    };
    if alpha_mode_count == 0 {
        return Err(Error::fatal(ErrorKind::NoCompatibleDevice));
    }
    Ok(SwapchainChoice {
        format_index,
        present_mode,
        alpha_mode_index: 0,
        width: if width == 0 { 1 } else { width },
        height: if height == 0 { 1 } else { height },
    })
}

/// Chooses a swapchain configuration for a surface offering `formats`: the
/// first sRGB format, else the first one (as [`choose_swapchain`], with each
/// format's sRGB flag taken from wgpu).
pub fn create_swapchain(formats: &Vec<wgpu::TextureFormat>, present_modes: &Vec<PresentMode>, alpha_mode_count: usize, width: u32, height: u32) -> (r: Result<SwapchainChoice, Error>)
    ensures
        r == swapchain_choice(formats@.map_values(|f: wgpu::TextureFormat| srgb_format(f)), present_modes@, alpha_mode_count as nat, width, height),
{
    let n = formats.len();
    let mut srgb: Vec<bool> = Vec::new();
    let mut i: usize = 0;
    while i < n
        invariant
            n == formats@.len(),
            i <= n,
            srgb@ == formats@.take(i as int).map_values(|f: wgpu::TextureFormat| srgb_format(f)),
        decreases n - i,
    {
        srgb.push(texture_format_is_srgb(&formats[i]));
        proof {
            assert(srgb@ =~= formats@.take(i + 1).map_values(|f: wgpu::TextureFormat| srgb_format(f)));
        }
        i += 1;
    }
    assert(formats@.take(n as int) =~= formats@);
    choose_swapchain(&srgb, present_modes, alpha_mode_count, width, height)
}

/// Number of times a frame tries to acquire a swapchain image.
pub const MAX_ACQUIRE_ATTEMPTS: u32 = 2;

/// Status of one attempt to acquire a swapchain image.
#[derive(Debug, Clone, Copy, PartialEq, Eq, Structural)]
pub enum SurfaceStatus {
    Success,
    Suboptimal,
    Timeout,
    Occluded,
    Outdated,
    Lost,
    Validation,
}

/// What to do after an acquisition attempt.
#[derive(Debug, Clone, Copy, PartialEq, Eq, Structural)]
pub enum AcquireAction {
    /// Render into the acquired image.
    UseTexture,
    /// Skip this frame without an error.
    SkipFrame,
    /// Reconfigure the surface, then try again if attempts remain.
    Reconfigure,
}

/// The action that follows an acquisition status.
pub open spec fn acquire_action_of(status: SurfaceStatus) -> AcquireAction {
    match status {
        SurfaceStatus::Success | SurfaceStatus::Suboptimal => AcquireAction::UseTexture,
        SurfaceStatus::Outdated | SurfaceStatus::Lost => AcquireAction::Reconfigure,
        _ => AcquireAction::SkipFrame,
    }
}

/// Progress of acquiring a swapchain image for one frame.
#[derive(Debug, Clone, Copy, PartialEq, Eq, Structural)]
pub struct SurfaceAcquire {
    /// Attempts made so far.
    pub attempts: u32,
}

impl SurfaceAcquire {
    /// No attempt made yet.
    pub fn new() -> (r: Self)
        ensures
            r.attempts == 0,
    {
        SurfaceAcquire { attempts: 0 }
    }

    /// Whether another attempt may be made.
    pub fn may_try(&self) -> (r: bool)
        ensures
            r == (self.attempts < MAX_ACQUIRE_ATTEMPTS),
    {
        self.attempts < MAX_ACQUIRE_ATTEMPTS
    }

    /// Records an attempt and its status, and says what to do next.
    pub fn record(&mut self, status: SurfaceStatus) -> (r: AcquireAction)
        requires
            old(self).attempts < MAX_ACQUIRE_ATTEMPTS,
        ensures
            final(self).attempts == old(self).attempts + 1,
            r == acquire_action_of(status),
    {
        self.attempts = self.attempts + 1;
        match status {
            SurfaceStatus::Success | SurfaceStatus::Suboptimal => AcquireAction::UseTexture,
            SurfaceStatus::Outdated | SurfaceStatus::Lost => AcquireAction::Reconfigure,
            _ => AcquireAction::SkipFrame,
        }
    }
}

/// The error of a frame whose every acquisition attempt found the surface
/// outdated or lost.
pub fn acquire_exhausted_error() -> (e: Error)
    ensures
        e == recoverable_error(ErrorKind::SurfaceOutdated),
{
    Error::recoverable(ErrorKind::SurfaceOutdated)
}

/// The state after (re)configuring the swapchain at `extent`: the swapchain
/// takes the extent raised to one texel each way, and every depth attachment
/// and cached pipeline is dropped.
pub open spec fn reconfigured(s: BridgeView, extent: Extent2D) -> BridgeView {
    BridgeView {
        swapchain: Some(Extent2D { width: at_least_one(extent.width), height: at_least_one(extent.height) }),
        depth_targets: Seq::empty(),
        pipeline_cache: Seq::empty(),
        ..s
    }
}

impl BridgeState {
    /// Records a newly attached surface configured at `extent`.
    pub fn attach_surface(&mut self, extent: Extent2D)
        ensures
            final(self)@ == (BridgeView { surface_attached: true, ..reconfigured(old(self)@, extent.clamped_spec()) }),
    {
        let extent = extent.clamped();
        self.surface_attached = true;
        self.swapchain = Some(Extent2D {
            width: if extent.width == 0 { 1 } else { extent.width },
            height: if extent.height == 0 { 1 } else { extent.height },
        });
        self.pipeline_cache.clear();
        self.depth_targets.clear();
        assert(self@ =~= (BridgeView { surface_attached: true, ..reconfigured(old(self)@, extent) }));
    }

    /// Records the swapchain reconfigured at `extent`; fails when no surface
    /// is attached.
    pub fn reconfigure_surface(&mut self, extent: Extent2D) -> (r: Result<(), Error>)
        ensures
            !old(self).surface_attached ==> final(self)@ == old(self)@ && r == Err::<(), Error>(fatal_error(ErrorKind::SurfaceNotAttached)),
            old(self).surface_attached ==> final(self)@ == reconfigured(old(self)@, extent) && r is Ok,
    {
        if !self.surface_attached {
            return Err(surface_not_attached_error());
        }
        self.swapchain = Some(Extent2D {
            width: if extent.width == 0 { 1 } else { extent.width },
            height: if extent.height == 0 { 1 } else { extent.height },
        });
        self.depth_targets.clear();
        self.pipeline_cache.clear();
        assert(self@ =~= reconfigured(old(self)@, extent));
        Ok(())
    }

    /// Resizes the swapchain to `extent`, each side raised to at least one.
    pub fn resize(&mut self, extent: Extent2D) -> (r: Result<(), Error>)
        ensures
            !old(self).surface_attached ==> final(self)@ == old(self)@ && r == Err::<(), Error>(fatal_error(ErrorKind::SurfaceNotAttached)),
            old(self).surface_attached ==> final(self)@ == reconfigured(old(self)@, extent) && r is Ok,
    {
        let clamped = extent.clamped();
        self.reconfigure_surface(clamped)
    }

    /// The extent of the configured swapchain, which an outdated surface is
    /// reconfigured at.
    pub fn swapchain_extent(&self) -> (r: Result<Extent2D, Error>)
        ensures
            match self@.swapchain {
                Some(e) => r == Ok::<Extent2D, Error>(e),
                None => r == Err::<Extent2D, Error>(fatal_error(ErrorKind::SurfaceNotAttached)),
            },
    {
        match self.swapchain {
            Some(extent) => Ok(extent),
            None => Err(surface_not_attached_error()),
        }
    }
}

} // verus!
