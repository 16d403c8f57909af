//! The GPUs and the surfaces that scan out of them.

use crate::geometry::Size;
use crate::maps::{collect_keys, lists_keys};
use crate::output::{find_output_with_id, output_views, output_with_id, Output, OutputView};
use crate::state::BlueState;
use std::collections::HashMap;
use vstd::prelude::*;

verus! {

broadcast use vstd::std_specs::hash::group_hash_axioms;

/// Milliseconds between two frames.
pub const FRAME_INTERVAL_MS: u64 = 16;

/// A surface that an output is drawn to.
#[derive(Debug, Clone, PartialEq, Eq)]
pub struct OutputRenderSurface {
    pub output: u64,
    pub output_name: String,
    pub connector: u32,
}

/// One GPU and its surfaces, by CRTC.
#[derive(Debug)]
pub struct GpuDevice {
    pub has_renderer: bool,
    pub surfaces: HashMap<u32, OutputRenderSurface>,
}

/// The GPUs, by device node.
#[derive(Debug)]
pub struct UdevData {
    pub primary_gpu: u64,
    pub devices: HashMap<u64, GpuDevice>,
}

/// What the compositor draws with.
#[derive(Debug)]
pub enum BackendData {
    Unset,
    /// Nested in a window of another session, which is its only output.
    Winit { output: u64 },
    /// Directly on the hardware.
    Udev { udev: UdevData },
}

/// [`OutputRenderSurface`] with its text as a sequence of characters.
pub struct SurfaceView {
    pub output: u64,
    pub output_name: Seq<char>,
    pub connector: u32,
}

/// [`GpuDevice`] with its surfaces as a map.
pub struct GpuView {
    pub has_renderer: bool,
    pub surfaces: Map<u32, SurfaceView>,
}

/// [`BackendData`] with the GPUs as a map.
pub enum BackendView {
    Unset,
    Winit { output: u64 },
    Udev { primary_gpu: u64, devices: Map<u64, GpuView> },
}

impl View for OutputRenderSurface {
    type V = SurfaceView;

    open spec fn view(&self) -> SurfaceView {
        SurfaceView {
            output: self.output,
            output_name: self.output_name@,
            connector: self.connector,
        }
    }
}

/// The surfaces of a GPU, by CRTC.
pub open spec fn surfaces_view(surfaces: Map<u32, OutputRenderSurface>) -> Map<u32, SurfaceView> {
    surfaces.map_values(|s: OutputRenderSurface| s@)
}

impl View for GpuDevice {
    type V = GpuView;

    open spec fn view(&self) -> GpuView {
        GpuView { has_renderer: self.has_renderer, surfaces: surfaces_view(self.surfaces@) }
    }
}

/// The GPUs, by device node.
pub open spec fn devices_view(devices: Map<u64, GpuDevice>) -> Map<u64, GpuView> {
    devices.map_values(|d: GpuDevice| d@)
}

impl View for BackendData {
    type V = BackendView;

    open spec fn view(&self) -> BackendView {
        match *self {
            BackendData::Unset => BackendView::Unset,
            BackendData::Winit { output } => BackendView::Winit { output },
            BackendData::Udev { udev } => BackendView::Udev {
                primary_gpu: udev.primary_gpu,
                devices: devices_view(udev.devices@),
            },
        }
    }
}

impl BackendView {
    /// The GPU at `node`.
    pub open spec fn gpu(self, node: u64) -> Option<GpuView> {
        match self {
            BackendView::Udev { devices, .. } if devices.contains_key(node) => Some(devices[node]),
            _ => None,
        }
    }

    /// The surface on the CRTC `crtc` of the GPU at `node`.
    pub open spec fn surface(self, node: u64, crtc: u32) -> Option<SurfaceView> {
        match self.gpu(node) {
            Some(gpu) if gpu.surfaces.contains_key(crtc) => Some(gpu.surfaces[crtc]),
            _ => None,
        }
    }

    /// With the GPU at `node` replaced, or added; a nested compositor has none.
    pub open spec fn with_gpu(self, node: u64, gpu: GpuView) -> BackendView {
        match self {
            BackendView::Udev { primary_gpu, devices } => BackendView::Udev {
                primary_gpu,
                devices: devices.insert(node, gpu),
            },
            _ => self,
        }
    }

    /// Without the GPU at `node`.
    pub open spec fn without_gpu(self, node: u64) -> BackendView {
        match self {
            BackendView::Udev { primary_gpu, devices } => BackendView::Udev {
                primary_gpu,
                devices: devices.remove(node),
            },
            _ => self,
        }
    }

    /// Without the surfaces that the outputs in `gone` were drawn to.
    pub open spec fn without_outputs(self, gone: Seq<u64>) -> BackendView {
        match self {
            BackendView::Udev { primary_gpu, devices } => BackendView::Udev {
                primary_gpu,
                devices: devices.map_values(|gpu: GpuView| gpu.without_outputs(gone)),
            },
            _ => self,
        }
    }
}

impl GpuView {
    /// Without the surfaces that the outputs in `gone` were drawn to.
    pub open spec fn without_outputs(self, gone: Seq<u64>) -> GpuView {
        GpuView {
            has_renderer: self.has_renderer,
            surfaces: self.surfaces.restrict(
                Set::new(|crtc: u32| !gone.contains(self.surfaces[crtc].output)),
            ),
        }
    }
}

/// A GPU that was just opened: nothing is set up on it.
pub open spec fn fresh_gpu() -> GpuView {
    GpuView { has_renderer: false, surfaces: Map::empty() }
}

/// What is missing for a GPU to draw.
#[derive(Debug, Clone, Copy, PartialEq, Eq, Structural)]
pub enum RendererNeed {
    /// It has a renderer.
    Ready,
    /// A renderer has to be created.
    Create,
    /// There is no such GPU.
    Unavailable,
}

/// What is missing for the GPU at `node` to draw.
pub open spec fn renderer_need(backend: BackendView, node: u64) -> RendererNeed {
    match backend.gpu(node) {
        Some(gpu) => if gpu.has_renderer {
            RendererNeed::Ready
        } else {
            RendererNeed::Create
        },
        None => RendererNeed::Unavailable,
    }
}

/// One frame to draw.
#[derive(Debug, Clone, PartialEq, Eq)]
pub struct RenderJob {
    pub output: u64,
    pub output_name: String,
    /// The size of the current mode, zero without one.
    pub size: Size,
}

/// Whether `output` is drawn on some surface of `gpu`.
pub open spec fn drives(gpu: GpuView, output: u64) -> bool {
    exists|crtc: u32| #[trigger]
        gpu.surfaces.contains_key(crtc) && gpu.surfaces[crtc].output == output
}

/// The outputs that are drawn on the surfaces of `gpu` on `crtcs`.
pub open spec fn outputs_on(gpu: GpuView, crtcs: Seq<u32>) -> Seq<u64> {
    crtcs.map_values(|crtc: u32| gpu.surfaces[crtc].output)
}

/// Whether `outputs` lists the output of each surface of `gpu` once. Nothing is said of
/// their order.
pub open spec fn lists_driven(gpu: GpuView, outputs: Seq<u64>) -> bool {
    exists|crtcs: Seq<u32>| #[trigger]
        lists_keys(crtcs, gpu.surfaces) && outputs == outputs_on(gpu, crtcs)
}

/// Tells the outputs that the GPU at `node` does not drive.
pub open spec fn is_driven_elsewhere(backend: BackendView, node: u64) -> spec_fn(
    OutputView,
) -> bool {
    |o: OutputView| !(backend.gpu(node) matches Some(gpu) && drives(gpu, o.id))
}

/// Picks the GPU to start with: the primary one of the seat, or the first of all.
pub fn select_primary_gpu(primary: Option<String>, all: Vec<String>) -> (path: Option<String>)
    ensures
        match primary {
            Some(p) => path == Some(p),
            None => if all@.len() > 0 {
                path matches Some(p) && p@ == all@[0]@
            } else {
                path is None
            },
        },
        path is None <==> primary is None && all@.len() == 0,
        primary is Some ==> path == primary,
{
    match primary {
        Some(p) => Some(p),
        None => if all.len() > 0 {
            Some(all[0].clone())
        } else {
            None
        },
    }
}

/// Looks up a GPU by its node.
pub(crate) fn gpu_at(backend: &BackendData, node: u64) -> (gpu: Option<&GpuDevice>)
    ensures
        match gpu {
            Some(g) => backend@.gpu(node) == Some(g@),
            None => backend@.gpu(node) is None,
        },
{
    match backend {
        BackendData::Udev { udev } => udev.devices.get(&node),
        _ => None,
    }
}

/// Replaces the GPU at `node`, or adds it.
pub(crate) fn put_gpu(backend: &mut BackendData, node: u64, gpu: GpuDevice)
    ensures
        final(backend)@ == old(backend)@.with_gpu(node, gpu@),
{
    match backend {
        BackendData::Udev { udev } => {
            let ghost devices = devices_view(udev.devices@);
            udev.devices.insert(node, gpu);
            assert(devices_view(udev.devices@) =~= devices.insert(node, gpu@));
        },
        _ => {},
    }
}

/// Takes the GPU at `node` out.
pub(crate) fn take_gpu(backend: &mut BackendData, node: u64) -> (gpu: Option<GpuDevice>)
    ensures
        final(backend)@ == old(backend)@.without_gpu(node),
        match gpu {
            Some(g) => old(backend)@.gpu(node) == Some(g@),
            None => old(backend)@.gpu(node) is None,
        },
{
    match backend {
        BackendData::Udev { udev } => {
            let ghost devices = devices_view(udev.devices@);
            let gpu = udev.devices.remove(&node);
            assert(devices_view(udev.devices@) =~= devices.remove(node));
            gpu
        },
        _ => None,
    }
}

/// Drops the surfaces of the outputs in `gone`.
fn drop_surfaces(gpu: &mut GpuDevice, gone: &Vec<u64>)
    ensures
        final(gpu)@ == old(gpu)@.without_outputs(gone@),
{
    let ghost all = gpu.surfaces@;
    let crtcs = collect_keys(&gpu.surfaces);
    for i in 0..crtcs.len()
        invariant
            lists_keys(crtcs@, all),
            gpu.has_renderer == old(gpu).has_renderer,
            forall|crtc: u32| #[trigger]
                gpu.surfaces@.contains_key(crtc) <==> all.contains_key(crtc) && !(
                crtcs@.take(i as int).contains(crtc) && gone@.contains(all[crtc].output)),
            forall|crtc: u32| #[trigger]
                gpu.surfaces@.contains_key(crtc) ==> gpu.surfaces@[crtc] == all[crtc],
    {
        let crtc: u32 = crtcs[i];
        let ghost seen = crtcs@.take(i as int);
        assert(crtcs@.contains(crtc));
        assert(!seen.contains(crtc));
        proof {
            crate::search::take_one_more(crtcs@, i as int);
        }
        let leaves = match gpu.surfaces.get(&crtc) {
            Some(surface) => is_listed(gone, surface.output),
            None => false,
        };
        if leaves {
            gpu.surfaces.remove(&crtc);
        }
    }
    assert(crtcs@.take(crtcs@.len() as int) =~= crtcs@);
    assert(gpu@.surfaces =~= old(gpu)@.without_outputs(gone@).surfaces);
}

/// Drops the surfaces of the outputs in `gone`, on every GPU.
pub(crate) fn drop_all_surfaces(backend: &mut BackendData, gone: &Vec<u64>)
    ensures
        final(backend)@ == old(backend)@.without_outputs(gone@),
{
    let ghost before = backend@;
    let nodes = match backend {
        BackendData::Udev { udev } => collect_keys(&udev.devices),
        _ => {
            return;
        },
    };
    for i in 0..nodes.len()
        invariant
            before == old(backend)@,
            before is Udev,
            backend@ is Udev,
            backend@->primary_gpu == before->primary_gpu,
            nodes@.no_duplicates(),
            forall|node: u64| #[trigger]
                nodes@.contains(node) <==> before->devices.contains_key(node),
            forall|node: u64| #[trigger]
                backend@.gpu(node) == if nodes@.take(i as int).contains(node) {
                    Some(before->devices[node].without_outputs(gone@))
                } else {
                    before.gpu(node)
                },
    {
        let node: u64 = nodes[i];
        assert(nodes@.contains(node));
        assert(!nodes@.take(i as int).contains(node));
        proof {
            crate::search::take_one_more(nodes@, i as int);
        }
        let ghost held = backend@;
        assert(held.gpu(node) == before.gpu(node));
        match take_gpu(backend, node) {
            Some(mut gpu) => {
                drop_surfaces(&mut gpu, gone);
                put_gpu(backend, node, gpu);
                assert forall|other: u64| other != node implies #[trigger] backend@.gpu(other)
                    == held.gpu(other) by {}
            },
            None => {},
        }
    }
    assert(nodes@.take(nodes@.len() as int) =~= nodes@);
    proof {
        assert forall|node: u64| #[trigger]
            backend@->devices.contains_key(node) <==> before->devices.contains_key(node) by {
            assert(backend@.gpu(node) is Some <==> before.gpu(node) is Some);
        }
        assert forall|node: u64| #[trigger] before->devices.contains_key(node) implies
            backend@->devices[node] == before->devices[node].without_outputs(gone@) by {
            assert(backend@.gpu(node) is Some);
        }
        assert(backend@->devices =~= before.without_outputs(gone@)->devices);
    }
}

impl BlueState {
    /// A GPU was plugged in. `opened` says whether it could be opened. Tells whether
    /// there is a GPU at the node to be scanned; the managers are told of the new
    /// outputs after that.
    pub fn gpu_added(&mut self, node: u64, opened: bool) -> (scan: bool)
        ensures
            final(self).backend_data@ == if opened {
                old(self).backend_data@.with_gpu(node, fresh_gpu())
            } else {
                old(self).backend_data@
            },
            scan == final(self).backend_data@.gpu(node) is Some,
            opened && old(self).backend_data@ is Udev ==> (final(self).backend_data@.gpu(
                node,
            ) matches Some(gpu) && !gpu.has_renderer && forall|crtc: u32|
                !#[trigger] gpu.surfaces.contains_key(crtc)),
            forall|other: u64|
                other != node ==> #[trigger] final(self).backend_data@.gpu(other) == old(
                    self,
                ).backend_data@.gpu(other),
            !opened ==> (scan <==> old(self).backend_data@.gpu(node) is Some),
            *final(self) == (BlueState { backend_data: final(self).backend_data, ..*old(self) }),
    {
        if opened {
            let gpu = GpuDevice { has_renderer: false, surfaces: HashMap::new() };
            assert(gpu@.surfaces =~= fresh_gpu().surfaces);
            put_gpu(&mut self.backend_data, node, gpu);
        }
        gpu_at(&self.backend_data, node).is_some()
    }

    /// A GPU is gone: its outputs leave the screen and are forgotten. Tells which they
    /// are, in no particular order; the managers are told after that.
    pub fn gpu_removed(&mut self, node: u64) -> (unmapped: Vec<u64>)
        ensures
            match old(self).backend_data@.gpu(node) {
                Some(gpu) => lists_driven(gpu, unmapped@),
                None => unmapped@.len() == 0,
            },
            final(self).backend_data@ == old(self).backend_data@.without_gpu(node),
            output_views(final(self).outputs@) == output_views(old(self).outputs@).filter(
                is_driven_elsewhere(old(self).backend_data@, node),
            ),
            final(self).backend_data@.gpu(node) is None,
            forall|other: u64|
                other != node ==> #[trigger] final(self).backend_data@.gpu(other) == old(
                    self,
                ).backend_data@.gpu(other),
            forall|output: u64| #[trigger]
                unmapped@.contains(output) <==> (old(self).backend_data@.gpu(
                    node,
                ) matches Some(gpu) && drives(gpu, output)),
            *final(self) == (BlueState {
                backend_data: final(self).backend_data,
                outputs: final(self).outputs,
                ..*old(self)
            }),
    {
        let ghost backend = self.backend_data@;
        let ghost all = output_views(self.outputs@);
        let mut unmapped: Vec<u64> = Vec::new();
        match take_gpu(&mut self.backend_data, node) {
            Some(gpu) => {
                unmapped = driven_outputs(&gpu);
                proof {
                    driven_outputs_are_listed(gpu@, unmapped@);
                }
            },
            None => {},
        }
        assert forall|o: OutputView| #[trigger]
            is_driven_elsewhere(backend, node)(o) <==> !unmapped@.contains(o.id) by {}
        self.forget_outputs(&unmapped);
        proof {
            crate::search::same_filter(
                all,
                is_driven_elsewhere(backend, node),
                is_not_listed(unmapped@),
            );
        }
        unmapped
    }

    fn forget_outputs(&mut self, gone: &Vec<u64>)
        ensures
            output_views(final(self).outputs@) == output_views(old(self).outputs@).filter(
                is_not_listed(gone@),
            ),
            *final(self) == (BlueState { outputs: final(self).outputs, ..*old(self) }),
    {
        let ghost all = output_views(self.outputs@);
        let ghost p = is_not_listed(gone@);
        let count: usize = self.outputs.len();
        let mut kept: Vec<Output> = Vec::new();
        proof {
            reveal(Seq::filter);
            assert(output_views(kept@) =~= all.take(0).filter(p));
        }
        for i in 0..count
            invariant
                p == is_not_listed(gone@),
                count == all.len(),
                output_views(self.outputs@) == all.skip(i as int),
                output_views(kept@) == all.take(i as int).filter(p),
                *self == (BlueState { outputs: self.outputs, ..*old(self) }),
        {
            proof {
                crate::search::filter_step(all, p, i as int);
            }
            let ghost views = output_views(self.outputs@);
            let ghost before = output_views(kept@);
            assert(self.outputs@.len() == views.len());
            let output = self.outputs.remove(0);
            assert(output@ == views[0]);
            assert(output_views(self.outputs@) =~= views.drop_first());
            assert(views.drop_first() =~= all.skip(i + 1));
            if !is_listed(gone, output.id) {
                kept.push(output);
                assert(output_views(kept@) =~= before.push(all[i as int]));
            }
        }
        assert(all.take(count as int) =~= all);
        self.outputs = kept;
    }

    /// The surface whose frame was shown, so that the next one can be drawn.
    pub fn vblank_surface(&self, node: u64, crtc: u32) -> (surface: Option<OutputRenderSurface>)
        ensures
            match surface {
                Some(s) => self.backend_data@.surface(node, crtc) == Some(s@),
                None => self.backend_data@.surface(node, crtc) is None,
            },
    {
        match gpu_at(&self.backend_data, node) {
            Some(gpu) => match gpu.surfaces.get(&crtc) {
                Some(s) => Some(
                    OutputRenderSurface {
                        output: s.output,
                        output_name: s.output_name.clone(),
                        connector: s.connector,
                    },
                ),
                None => None,
            },
            None => None,
        }
    }

    /// What is missing for a GPU to draw.
    pub fn renderer_need(&self, node: u64) -> (need: RendererNeed)
        ensures
            need == renderer_need(self.backend_data@, node),
    {
        match gpu_at(&self.backend_data, node) {
            Some(gpu) => if gpu.has_renderer {
                RendererNeed::Ready
            } else {
                RendererNeed::Create
            },
            None => RendererNeed::Unavailable,
        }
    }

    /// A renderer was created for a GPU that had none.
    pub fn renderer_created(&mut self, node: u64)
        requires
            renderer_need(old(self).backend_data@, node) == RendererNeed::Create,
        ensures
            final(self).backend_data@ == old(self).backend_data@.with_gpu(
                node,
                GpuView {
                    has_renderer: true,
                    surfaces: old(self).backend_data@.gpu(node)->0.surfaces,
                },
            ),
            renderer_need(final(self).backend_data@, node) == RendererNeed::Ready,
            forall|n: u64, crtc: u32| #[trigger]
                final(self).backend_data@.surface(n, crtc) == old(self).backend_data@.surface(
                    n,
                    crtc,
                ),
            *final(self) == (BlueState { backend_data: final(self).backend_data, ..*old(self) }),
    {
        let ghost before = self.backend_data@;
        match take_gpu(&mut self.backend_data, node) {
            Some(mut gpu) => {
                gpu.has_renderer = true;
                put_gpu(&mut self.backend_data, node, gpu);
                assert(self.backend_data@->devices =~= before->devices.insert(node, gpu@));
            },
            None => {},
        }
    }

    /// Whether clients are now told which buffers can be imported: once, as soon as
    /// some GPU can draw.
    pub fn register_dmabuf(&mut self, node: u64) -> (wanted: bool)
        ensures
            wanted == (renderer_need(old(self).backend_data@, node) == RendererNeed::Ready && !old(
                self,
            ).dmabuf_registered),
            final(self).dmabuf_registered == (old(self).dmabuf_registered || wanted),
            wanted ==> !old(self).dmabuf_registered && final(self).dmabuf_registered,
            old(self).dmabuf_registered ==> final(self).dmabuf_registered && !wanted,
            renderer_need(old(self).backend_data@, node) == RendererNeed::Ready
                ==> final(self).dmabuf_registered,
            renderer_need(old(self).backend_data@, node) != RendererNeed::Ready ==> !wanted,
            *final(self) == (BlueState {
                dmabuf_registered: final(self).dmabuf_registered,
                ..*old(self)
            }),
    {
        let ready = match self.renderer_need(node) {
            RendererNeed::Ready => true,
            _ => false,
        };
        let wanted = ready && !self.dmabuf_registered;
        if wanted {
            self.dmabuf_registered = true;
        }
        wanted
    }
}

/// Begins to draw on the hardware. `opened` says whether the primary GPU could
/// be opened. Tells whether its outputs are to be scanned.
pub fn init_udev(state: &mut BlueState, primary_gpu: u64, opened: bool) -> (scan: bool)
    ensures
        scan == opened,
        final(state).backend_data@ == (BackendView::Udev {
            primary_gpu,
            devices: if opened {
                Map::<u64, GpuView>::empty().insert(primary_gpu, fresh_gpu())
            } else {
                Map::<u64, GpuView>::empty()
            },
        }),
        forall|node: u64| #[trigger]
            final(state).backend_data@.gpu(node) == if opened && node == primary_gpu {
                Some(fresh_gpu())
            } else {
                None
            },
        opened ==> renderer_need(final(state).backend_data@, primary_gpu) == RendererNeed::Create,
        *final(state) == (BlueState { backend_data: final(state).backend_data, ..*old(state) }),
{
    let mut devices: HashMap<u64, GpuDevice> = HashMap::new();
    assert(devices_view(devices@) =~= Map::<u64, GpuView>::empty());
    if opened {
        let gpu = GpuDevice { has_renderer: false, surfaces: HashMap::new() };
        assert(gpu@.surfaces =~= fresh_gpu().surfaces);
        devices.insert(primary_gpu, gpu);
        assert(devices_view(devices@) =~= Map::<u64, GpuView>::empty().insert(
            primary_gpu,
            fresh_gpu(),
        ));
    }
    state.backend_data = BackendData::Udev { udev: UdevData { primary_gpu, devices } };
    opened
}

/// Begins a frame on one surface. Without a renderer, or without the surface,
/// there is nothing to draw.
pub fn render_udev(state: &BlueState, node: u64, crtc: u32) -> (job: Option<RenderJob>)
    ensures
        match job {
            Some(j) => is_render_job(
                state.backend_data@,
                output_views(state.outputs@),
                node,
                crtc,
                j,
            ),
            None => !can_render(state.backend_data@, node, crtc),
        },
{
    match gpu_at(&state.backend_data, node) {
        Some(gpu) => if gpu.has_renderer {
            match gpu.surfaces.get(&crtc) {
                Some(surface) => {
                    let size = match find_output_with_id(&state.outputs, surface.output) {
                        Some(i) => match state.outputs[i].current_mode {
                            Some(mode) => mode.size,
                            None => Size { w: 0, h: 0 },
                        },
                        None => Size { w: 0, h: 0 },
                    };
                    Some(
                        RenderJob {
                            output: surface.output,
                            output_name: surface.output_name.clone(),
                            size,
                        },
                    )
                },
                None => None,
            }
        } else {
            None
        },
        None => None,
    }
}

/// Every surface on every GPU, in no particular order.
pub fn render_all_udev_outputs(state: &BlueState) -> (targets: Vec<(u64, u32)>)
    ensures
        targets@.no_duplicates(),
        forall|node: u64, crtc: u32| #[trigger]
            targets@.contains((node, crtc)) <==> state.backend_data@.surface(
                node,
                crtc,
            ) is Some,
{
    let mut targets: Vec<(u64, u32)> = Vec::new();
    let udev = match &state.backend_data {
        BackendData::Udev { udev } => udev,
        _ => {
            return targets;
        },
    };
    let nodes = collect_keys(&udev.devices);
    for i in 0..nodes.len()
        invariant
            state.backend_data@ matches BackendView::Udev { devices, .. } && devices
                == devices_view(udev.devices@),
            lists_keys(nodes@, udev.devices@),
            are_targets(targets@, state.backend_data@, nodes@.take(i as int)),
    {
        assert(nodes@.contains(nodes@[i as int]));
        match udev.devices.get(&nodes[i]) {
            Some(gpu) => {
                push_targets(&mut targets, nodes[i], gpu);
                proof {
                    assert(!nodes@.take(i as int).contains(nodes@[i as int]));
                    crate::search::take_one_more(nodes@, i as int);
                }
            },
            None => {},
        }
    }
    assert(nodes@.take(nodes@.len() as int) =~= nodes@);
    targets
}

/// Whether there is a renderer for the surface.
pub open spec fn can_render(backend: BackendView, node: u64, crtc: u32) -> bool {
    &&& backend.gpu(node) matches Some(gpu) && gpu.has_renderer
    &&& backend.surface(node, crtc) is Some
}

/// Whether `job` is the frame of the surface.
pub open spec fn is_render_job(
    backend: BackendView,
    outputs: Seq<OutputView>,
    node: u64,
    crtc: u32,
    job: RenderJob,
) -> bool {
    &&& can_render(backend, node, crtc)
    &&& backend.surface(node, crtc) matches Some(surface) && {
        &&& job.output == surface.output
        &&& job.output_name@ == surface.output_name
        &&& job.size == match output_with_id(outputs, surface.output) {
            Some(output) => match output.current_mode {
                Some(mode) => mode.size,
                None => Size { w: 0, h: 0 },
            },
            None => Size { w: 0, h: 0 },
        }
    }
}

/// Whether `targets` lists each surface on the GPUs at `nodes` once.
pub open spec fn are_targets(
    targets: Seq<(u64, u32)>,
    backend: BackendView,
    nodes: Seq<u64>,
) -> bool {
    &&& targets.no_duplicates()
    &&& forall|node: u64, crtc: u32| #[trigger]
        targets.contains((node, crtc)) <==> nodes.contains(node) && backend.surface(
            node,
            crtc,
        ) is Some
}

fn push_targets(targets: &mut Vec<(u64, u32)>, node: u64, gpu: &GpuDevice)
    requires
        old(targets)@.no_duplicates(),
        forall|crtc: u32| !#[trigger] old(targets)@.contains((node, crtc)),
    ensures
        final(targets)@.no_duplicates(),
        forall|n: u64, crtc: u32| #[trigger]
            final(targets)@.contains((n, crtc)) <==> old(targets)@.contains((n, crtc)) || (n == node
                && gpu@.surfaces.contains_key(crtc)),
{
    let crtcs = collect_keys(&gpu.surfaces);
    let ghost before = targets@;
    for i in 0..crtcs.len()
        invariant
            lists_keys(crtcs@, gpu.surfaces@),
            before.no_duplicates(),
            forall|crtc: u32| !#[trigger] before.contains((node, crtc)),
            targets@.len() == before.len() + i,
            forall|j: int|
                0 <= j < targets@.len() ==> #[trigger] targets@[j] == if j < before.len() {
                    before[j]
                } else {
                    (node, crtcs@[j - before.len()])
                },
    {
        targets.push((node, crtcs[i]));
    }
    let ghost n0 = before.len() as int;
    assert(targets@.no_duplicates()) by {
        assert forall|i: int, j: int| 0 <= i < j < targets@.len() implies targets@[i]
            != targets@[j] by {
            if i < n0 && j >= n0 {
                assert(before.contains(before[i]));
            }
        }
    }
    assert forall|n: u64, crtc: u32| #[trigger]
        targets@.contains((n, crtc)) <==> before.contains((n, crtc)) || (n == node
            && gpu@.surfaces.contains_key(crtc)) by {
        if targets@.contains((n, crtc)) {
            let k = choose|k: int| 0 <= k < targets@.len() && targets@[k] == (n, crtc);
            if k < n0 {
                assert(before[k] == (n, crtc));
            } else {
                assert(crtcs@.contains(crtcs@[k - n0]));
            }
        }
        if before.contains((n, crtc)) {
            let k = choose|k: int| 0 <= k < before.len() && before[k] == (n, crtc);
            assert(targets@[k] == (n, crtc));
        }
        if n == node && gpu@.surfaces.contains_key(crtc) {
            assert(crtcs@.contains(crtc));
            let k = choose|k: int| 0 <= k < crtcs@.len() && crtcs@[k] == crtc;
            assert(targets@[n0 + k] == (n, crtc));
        }
    }
}

/// Tells the outputs that are not in the list.
pub open spec fn is_not_listed(gone: Seq<u64>) -> spec_fn(OutputView) -> bool {
    |o: OutputView| !gone.contains(o.id)
}

pub(crate) fn is_listed(list: &Vec<u64>, id: u64) -> (found: bool)
    ensures
        found == list@.contains(id),
{
    for i in 0..list.len()
        invariant
            forall|j: int| 0 <= j < i ==> #[trigger] list@[j] != id,
    {
        if list[i] == id {
            assert(list@[i as int] == id);
            return true;
        }
    }
    false
}

fn driven_outputs(gpu: &GpuDevice) -> (outputs: Vec<u64>)
    ensures
        lists_driven(gpu@, outputs@),
{
    let crtcs = collect_keys(&gpu.surfaces);
    let mut outputs: Vec<u64> = Vec::new();
    for i in 0..crtcs.len()
        invariant
            lists_keys(crtcs@, gpu.surfaces@),
            outputs@ == outputs_on(gpu@, crtcs@.take(i as int)),
    {
        assert(crtcs@.contains(crtcs@[i as int]));
        match gpu.surfaces.get(&crtcs[i]) {
            Some(surface) => {
                outputs.push(surface.output);
                assert(outputs@ =~= outputs_on(gpu@, crtcs@.take(i + 1)));
            },
            None => {},
        }
    }
    assert(crtcs@.take(crtcs@.len() as int) =~= crtcs@);
    assert(lists_keys(crtcs@, gpu@.surfaces));
    outputs
}

/// A list of the outputs that a GPU drives holds those outputs, and no others.
pub proof fn driven_outputs_are_listed(gpu: GpuView, outputs: Seq<u64>)
    requires
        lists_driven(gpu, outputs),
    ensures
        forall|output: u64| #[trigger] outputs.contains(output) <==> drives(gpu, output),
{
    let crtcs = choose|crtcs: Seq<u32>| #[trigger]
        lists_keys(crtcs, gpu.surfaces) && outputs == outputs_on(gpu, crtcs);
    assert forall|output: u64| #[trigger] outputs.contains(output) <==> drives(gpu, output) by {
        if outputs.contains(output) {
            let j = choose|j: int| 0 <= j < outputs.len() && outputs[j] == output;
            assert(crtcs.contains(crtcs[j]));
            assert(gpu.surfaces.contains_key(crtcs[j]));
        }
        if drives(gpu, output) {
            let crtc = choose|crtc: u32| #[trigger]
                gpu.surfaces.contains_key(crtc) && gpu.surfaces[crtc].output == output;
            assert(crtcs.contains(crtc));
            let j = choose|j: int| 0 <= j < crtcs.len() && crtcs[j] == crtc;
            assert(outputs[j] == output);
        }
    }
}

/// Once a GPU is gone, none of its outputs is left, and all others stay as they
/// were.
pub proof fn a_removed_gpu_takes_its_outputs(
    outputs: Seq<OutputView>,
    backend: BackendView,
    node: u64,
    output: OutputView,
)
    ensures
        outputs.filter(is_driven_elsewhere(backend, node)).contains(output) <==> (
        outputs.contains(output) && !(backend.gpu(node) matches Some(gpu) && drives(
            gpu,
            output.id,
        ))),
        backend.without_gpu(node).gpu(node) is None,
{
    crate::search::filter_membership(outputs, is_driven_elsewhere(backend, node), output);
}

/// No surface is left of an output that is gone, and the surfaces of the others stay,
/// so that the CRTCs of the former are free again and those of the latter are not.
pub proof fn gone_outputs_free_their_crtcs(
    backend: BackendView,
    gone: Seq<u64>,
    node: u64,
    crtc: u32,
)
    ensures
        backend.without_outputs(gone).surface(node, crtc) == match backend.surface(node, crtc) {
            Some(surface) => if gone.contains(surface.output) {
                None
            } else {
                Some(surface)
            },
            None => None,
        },
{
}

/// Where no output is gone, every surface stays.
pub proof fn without_losses_the_gpus_stay(backend: BackendView)
    ensures
        backend.without_outputs(Seq::empty()) == backend,
{
    if backend is Udev {
        let devices = backend->devices;
        let kept = backend.without_outputs(Seq::empty())->devices;
        assert forall|node: u64| #[trigger] devices.contains_key(node) implies kept[node]
            == devices[node] by {
            assert(kept[node].surfaces =~= devices[node].surfaces);
        }
        assert(kept =~= devices);
    }
}

/// GPUs do not affect each other: what happens to one leaves the others alone.
pub proof fn gpus_are_independent(backend: BackendView, node: u64, other: u64, gpu: GpuView)
    requires
        node != other,
    ensures
        backend.with_gpu(node, gpu).gpu(other) == backend.gpu(other),
        backend.without_gpu(node).gpu(other) == backend.gpu(other),
{
}

/// Plugging a GPU in again after it was removed starts it afresh: it has neither a
/// renderer nor a surface.
pub proof fn a_replugged_gpu_starts_afresh(backend: BackendView, node: u64, crtc: u32)
    requires
        backend is Udev,
    ensures
        renderer_need(backend.without_gpu(node).with_gpu(node, fresh_gpu()), node)
            == RendererNeed::Create,
        backend.without_gpu(node).with_gpu(node, fresh_gpu()).surface(node, crtc) is None,
{
}

/// A GPU that was put in place is found there, with its surfaces; one that was taken out is
/// not.
pub proof fn gpus_are_found_where_they_were_put(
    backend: BackendView,
    node: u64,
    gpu: GpuView,
    crtc: u32,
)
    requires
        backend is Udev,
    ensures
        backend.with_gpu(node, gpu).gpu(node) == Some(gpu),
        backend.with_gpu(node, gpu) is Udev,
        backend.with_gpu(node, gpu)->primary_gpu == backend->primary_gpu,
        backend.without_gpu(node)->primary_gpu == backend->primary_gpu,
        gpu.surfaces.contains_key(crtc) ==> backend.with_gpu(node, gpu).surface(node, crtc) == Some(
            gpu.surfaces[crtc],
        ),
        !gpu.surfaces.contains_key(crtc) ==> backend.with_gpu(node, gpu).surface(
            node,
            crtc,
        ) is None,
{
}

/// A compositor that does not draw on the hardware has no GPU, and gets none.
pub proof fn without_hardware_there_is_no_gpu(backend: BackendView, node: u64, gpu: GpuView)
    requires
        !(backend is Udev),
    ensures
        backend.gpu(node) is None,
        backend.with_gpu(node, gpu) == backend,
        backend.without_gpu(node) == backend,
        backend.without_outputs(Seq::empty()) == backend,
{
}

/// A renderer is created exactly for a GPU that there is and that has none yet.
pub proof fn renderers_are_created_where_they_are_missing(backend: BackendView, node: u64)
    ensures
        renderer_need(backend, node) == RendererNeed::Create <==> (backend.gpu(
            node,
        ) matches Some(gpu) && !gpu.has_renderer),
        renderer_need(backend, node) == RendererNeed::Ready <==> (backend.gpu(
            node,
        ) matches Some(gpu) && gpu.has_renderer),
        renderer_need(backend, node) == RendererNeed::Unavailable <==> backend.gpu(node) is None,
        !fresh_gpu().has_renderer,
        forall|crtc: u32| !#[trigger] fresh_gpu().surfaces.contains_key(crtc),
{
}

/// A frame is drawn exactly on a surface that there is, of a GPU that can draw. It is of the
/// output of the surface, under its name, and of the size of that output's current mode.
pub proof fn frames_are_as_large_as_their_output(
    backend: BackendView,
    outputs: Seq<OutputView>,
    node: u64,
    crtc: u32,
    job: RenderJob,
)
    ensures
        can_render(backend, node, crtc) <==> renderer_need(backend, node) == RendererNeed::Ready
            && backend.surface(node, crtc) is Some,
        is_render_job(backend, outputs, node, crtc, job) ==> {
            let surface = backend.surface(node, crtc)->0;
            &&& backend.surface(node, crtc) is Some
            &&& can_render(backend, node, crtc)
            &&& job.output == surface.output
            &&& job.output_name@ == surface.output_name
            &&& (output_with_id(outputs, surface.output) matches Some(o) && o.current_mode is Some)
                ==> job.size == output_with_id(outputs, surface.output)->0.current_mode->0.size
            &&& !(output_with_id(outputs, surface.output) matches Some(o)
                && o.current_mode is Some) ==> job.size.w == 0 && job.size.h == 0
        },
{
}

/// A GPU drives an output exactly if one of its surfaces is of that output.
pub proof fn gpus_drive_the_outputs_of_their_surfaces(gpu: GpuView, crtc: u32, output: u64)
    ensures
        gpu.surfaces.contains_key(crtc) ==> drives(gpu, gpu.surfaces[crtc].output),
        (forall|c: u32| #[trigger]
            gpu.surfaces.contains_key(c) ==> gpu.surfaces[c].output != output) ==> !drives(
            gpu,
            output,
        ),
{
}

/// A GPU that is gone lists as many outputs as it had surfaces.
pub proof fn one_output_is_listed_for_each_surface(gpu: GpuView, outputs: Seq<u64>)
    requires
        lists_driven(gpu, outputs),
    ensures
        outputs.len() == gpu.surfaces.dom().len(),
{
    let crtcs = choose|crtcs: Seq<u32>| #[trigger]
        lists_keys(crtcs, gpu.surfaces) && outputs == outputs_on(gpu, crtcs);
    crate::maps::keys_are_listed_once(crtcs, gpu.surfaces, 0, 0, 0);
}

/// The views of a surface, a GPU and the backend keep everything that they hold.
pub proof fn backend_views_lose_nothing(
    surface: OutputRenderSurface,
    gpu: GpuDevice,
    backend: BackendData,
    node: u64,
    crtc: u32,
)
    ensures
        surface@.output == surface.output,
        surface@.output_name == surface.output_name@,
        surface@.connector == surface.connector,
        gpu@.has_renderer == gpu.has_renderer,
        gpu@.surfaces.contains_key(crtc) <==> gpu.surfaces@.contains_key(crtc),
        gpu.surfaces@.contains_key(crtc) ==> gpu@.surfaces[crtc] == gpu.surfaces@[crtc]@,
        backend matches BackendData::Winit { output } ==> backend@ == (BackendView::Winit {
            output,
        }),
        backend is Unset ==> backend@ is Unset,
        backend matches BackendData::Udev { udev } ==> {
            &&& backend@ matches BackendView::Udev { primary_gpu, .. } && primary_gpu
                == udev.primary_gpu
            &&& backend@.gpu(node) is Some <==> udev.devices@.contains_key(node)
            &&& udev.devices@.contains_key(node) ==> backend@.gpu(node) == Some(
                udev.devices@[node]@,
            )
        },
{
}

/// A frame is drawn about sixty times a second.
pub proof fn sixty_frames_fit_in_a_second()
    ensures
        60 * FRAME_INTERVAL_MS <= 1000 < 60 * (FRAME_INTERVAL_MS + 1),
{
}

} // verus!
