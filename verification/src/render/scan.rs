//! Finding the monitors of a GPU: which mode, which CRTC and which place each of
//! them gets.

use crate::geometry::{fits_i32, greater, to_i32, wrapped_i32, Point, Size};
use crate::maps::collect_keys;
use crate::output::{
    add_mode, output_views, with_mode, Output, OutputMode, OutputTransform, OutputView, Scale,
};
use crate::protocols::hotplug::{has_name, names_view};
use crate::render::udev::{
    gpu_at, put_gpu, take_gpu, BackendView, GpuView, OutputRenderSurface, SurfaceView,
};
use crate::search::first_match;
use crate::state::BlueState;
use crate::text::{decimal, decimal_text};
use vstd::prelude::*;

verus! {

broadcast use vstd::std_specs::hash::group_hash_axioms;

/// A mode that a connector reports.
#[derive(Debug, Clone, Copy, PartialEq, Eq, Structural)]
pub struct DrmMode {
    pub width: u16,
    pub height: u16,
    /// In hertz.
    pub vrefresh: u32,
    /// The monitor would rather have this mode.
    pub preferred: bool,
}

/// What is read of one connector.
#[derive(Debug)]
pub struct Connector {
    pub handle: u32,
    pub connected: bool,
    /// The number of the interface, such as HDMI.
    pub interface: u8,
    /// In millimetres.
    pub physical_size: Option<(u32, u32)>,
    pub modes: Vec<DrmMode>,
    /// The CRTCs that its encoders can use, one encoder after the other.
    pub encoder_crtcs: Vec<u32>,
}

/// An output that is about to be set up.
#[derive(Debug)]
pub struct OutputPlan {
    pub output: Output,
    pub mode: DrmMode,
    /// The place of the mode among those of the connector.
    pub mode_place: usize,
    pub crtc: u32,
    pub connector: u32,
}

/// The search for the monitors of one GPU, and how far it has come.
#[derive(Debug)]
pub struct DrmScan {
    pub connectors: Vec<Connector>,
    /// All CRTCs of the GPU.
    pub crtcs: Vec<u32>,
    /// The connector to look at next.
    pub next: usize,
    /// The CRTCs that are taken.
    pub used_crtcs: Vec<u32>,
    /// How many outputs there were before.
    pub first: usize,
    /// Where the row of new outputs begins.
    pub start: i32,
    /// Where the next output goes.
    pub x_off: i32,
}

/// The place of the preferred mode with the highest refresh rate, the last one of
/// several.
pub open spec fn best_preferred(modes: Seq<DrmMode>) -> Option<int>
    decreases modes.len(),
{
    if modes.len() == 0 {
        None
    } else {
        let best = best_preferred(modes.drop_last());
        let last = modes.last();
        if last.preferred && (best matches Some(i) ==> last.vrefresh >= modes[i].vrefresh) {
            Some(modes.len() - 1)
        } else {
            best
        }
    }
}

/// The place of the mode that a connector is driven with: the best of the preferred ones,
/// or the first where none is preferred.
pub open spec fn selected_place(modes: Seq<DrmMode>) -> Option<int> {
    match best_preferred(modes) {
        Some(i) => Some(i),
        None => if modes.len() > 0 {
            Some(0)
        } else {
            None
        },
    }
}

/// The mode that a connector is driven with.
pub open spec fn selected_mode(modes: Seq<DrmMode>) -> Option<DrmMode> {
    match selected_place(modes) {
        Some(i) => Some(modes[i]),
        None => None,
    }
}

/// Whether the refresh rate can be told in millihertz.
pub open spec fn refresh_fits(mode: DrmMode) -> bool {
    fits_i32(wrapped_i32(mode.vrefresh) * 1000)
}

/// A connector's mode as an output has it, in millihertz.
pub open spec fn output_mode(mode: DrmMode) -> OutputMode {
    OutputMode {
        size: Size { w: mode.width as i32, h: mode.height as i32 },
        refresh: (wrapped_i32(mode.vrefresh) * 1000) as i32,
    }
}

/// The modes that are registered on an output: each one once, in order.
pub open spec fn registered_modes(modes: Seq<DrmMode>) -> Seq<OutputMode>
    decreases modes.len(),
{
    if modes.len() == 0 {
        Seq::empty()
    } else {
        with_mode(registered_modes(modes.drop_last()), output_mode(modes.last()))
    }
}

/// The name of the output on a connector.
pub open spec fn connector_name(interface: u8, handle: u32) -> Seq<char> {
    decimal(interface as nat) + "-"@ + decimal(handle as nat)
}

/// The CRTCs that can drive a connector; all of them, where its encoders name
/// none.
pub open spec fn candidate_crtcs(encoder_crtcs: Seq<u32>, crtcs: Seq<u32>) -> Seq<u32> {
    if encoder_crtcs.len() == 0 {
        crtcs
    } else {
        encoder_crtcs
    }
}

/// Tells the CRTCs that are not taken.
pub open spec fn is_free(used: Seq<u32>) -> spec_fn(u32) -> bool {
    |crtc: u32| !used.contains(crtc)
}

/// The CRTC that drives a connector: the first that is not taken.
pub open spec fn free_crtc(connector: Connector, crtcs: Seq<u32>, used: Seq<u32>) -> Option<u32> {
    first_match(candidate_crtcs(connector.encoder_crtcs@, crtcs), is_free(used))
}

/// Whether a connector gets an output.
pub open spec fn is_plannable(connector: Connector, crtcs: Seq<u32>, used: Seq<u32>) -> bool {
    &&& connector.connected
    &&& selected_mode(connector.modes@) is Some
    &&& free_crtc(connector, crtcs, used) is Some
}

/// Tells the connectors that have a monitor.
pub open spec fn is_connected() -> spec_fn(Connector) -> bool {
    |c: Connector| c.connected
}

/// Tells the connectors that are named in `names`.
pub open spec fn is_one_of(names: Seq<Seq<char>>) -> spec_fn(Connector) -> bool {
    |c: Connector| names.contains(connector_name(c.interface, c.handle))
}

/// The output that a connector gets.
pub open spec fn planned_output(id: u64, connector: Connector, x_off: i32) -> OutputView {
    let name = connector_name(connector.interface, connector.handle);
    let mode = output_mode(selected_mode(connector.modes@)->0);
    OutputView {
        id,
        name,
        make: "Unknown"@,
        model: name,
        physical_size: match connector.physical_size {
            Some((w, h)) => Size { w: wrapped_i32(w) as i32, h: wrapped_i32(h) as i32 },
            None => Size { w: 0, h: 0 },
        },
        modes: with_mode(registered_modes(connector.modes@), mode),
        current_mode: Some(mode),
        preferred_mode: Some(mode),
        location: Point { x: x_off, y: 0 },
        transform: OutputTransform::Normal,
        scale: Scale::Integer { factor: 1 },
    }
}

/// The next connector from `from` on that gets an output.
pub open spec fn next_plannable(
    connectors: Seq<Connector>,
    crtcs: Seq<u32>,
    used: Seq<u32>,
    from: int,
) -> Option<int>
    decreases connectors.len() - from,
{
    if from >= connectors.len() {
        None
    } else if is_plannable(connectors[from], crtcs, used) {
        Some(from)
    } else {
        next_plannable(connectors, crtcs, used, from + 1)
    }
}

/// Whether the refresh rates of all modes of a connector can be told.
pub open spec fn modes_fit(connector: Connector) -> bool {
    forall|i: int| 0 <= i < connector.modes@.len() ==> refresh_fits(#[trigger] connector.modes@[i])
}

/// Finds the preferred mode with the highest refresh rate.
fn find_best_preferred(modes: &Vec<DrmMode>) -> (place: Option<usize>)
    ensures
        match place {
            Some(i) => i < modes@.len() && best_preferred(modes@) == Some(i as int),
            None => best_preferred(modes@) is None,
        },
{
    let mut best: Option<usize> = None;
    for i in 0..modes.len()
        invariant
            match best {
                Some(b) => b < i && best_preferred(modes@.take(i as int)) == Some(b as int),
                None => best_preferred(modes@.take(i as int)) is None,
            },
    {
        assert(modes@.take(i + 1).drop_last() =~= modes@.take(i as int));
        if modes[i].preferred {
            let better = match best {
                Some(b) => modes[i].vrefresh >= modes[b].vrefresh,
                None => true,
            };
            if better {
                best = Some(i);
            }
        }
    }
    assert(modes@.take(modes@.len() as int) =~= modes@);
    best
}

/// Selects the mode that a connector is driven with, by its place.
pub fn select_mode(modes: &Vec<DrmMode>) -> (place: Option<usize>)
    ensures
        match place {
            Some(i) => i < modes@.len() && selected_place(modes@) == Some(i as int),
            None => selected_place(modes@) is None,
        },
{
    match find_best_preferred(modes) {
        Some(i) => Some(i),
        None => if modes.len() > 0 {
            Some(0)
        } else {
            None
        },
    }
}

/// Writes a connector's mode as an output has it.
pub fn to_output_mode(mode: DrmMode) -> (m: OutputMode)
    requires
        refresh_fits(mode),
    ensures
        m == output_mode(mode),
{
    let rate: i32 = to_i32(mode.vrefresh);
    OutputMode {
        size: Size { w: mode.width as i32, h: mode.height as i32 },
        refresh: rate * 1000,
    }
}

fn register_modes(modes: &Vec<DrmMode>) -> (registered: Vec<OutputMode>)
    requires
        forall|i: int| 0 <= i < modes@.len() ==> refresh_fits(#[trigger] modes@[i]),
    ensures
        registered@ == registered_modes(modes@),
{
    let mut registered: Vec<OutputMode> = Vec::new();
    for i in 0..modes.len()
        invariant
            forall|j: int| 0 <= j < modes@.len() ==> refresh_fits(#[trigger] modes@[j]),
            registered@ == registered_modes(modes@.take(i as int)),
    {
        assert(modes@.take(i + 1).drop_last() =~= modes@.take(i as int));
        assert(refresh_fits(modes@[i as int]));
        add_mode(&mut registered, to_output_mode(modes[i]));
    }
    assert(modes@.take(modes@.len() as int) =~= modes@);
    registered
}

fn find_free_crtc(candidates: &Vec<u32>, used: &Vec<u32>) -> (crtc: Option<u32>)
    ensures
        crtc == first_match(candidates@, is_free(used@)),
{
    for i in 0..candidates.len()
        invariant
            forall|j: int| 0 <= j < i ==> !is_free(used@)(#[trigger] candidates@[j]),
    {
        let mut taken = false;
        for k in 0..used.len()
            invariant
                i < candidates@.len(),
                taken <==> exists|m: int| 0 <= m < k && #[trigger] used@[m] == candidates@[i as int],
        {
            if used[k] == candidates[i] {
                taken = true;
            }
        }
        assert(taken == used@.contains(candidates@[i as int]));
        if !taken {
            proof {
                crate::search::first_match_at(candidates@, is_free(used@), i as int);
            }
            return Some(candidates[i]);
        }
    }
    proof {
        crate::search::first_match_none(candidates@, is_free(used@));
    }
    None
}

fn pick_crtc(connector: &Connector, crtcs: &Vec<u32>, used: &Vec<u32>) -> (crtc: Option<u32>)
    ensures
        crtc == free_crtc(*connector, crtcs@, used@),
{
    if connector.encoder_crtcs.len() == 0 {
        find_free_crtc(crtcs, used)
    } else {
        find_free_crtc(&connector.encoder_crtcs, used)
    }
}

fn name_of(connector: &Connector) -> (name: String)
    ensures
        name@ == connector_name(connector.interface, connector.handle),
{
    decimal_text(connector.interface as u64).concat("-").concat(
        decimal_text(connector.handle as u64).as_str(),
    )
}

/// Plans the output of a connector. One that is not connected, has no mode or finds no
/// free CRTC gets none.
fn plan_output(
    id: u64,
    connector: &Connector,
    crtcs: &Vec<u32>,
    used_crtcs: &Vec<u32>,
    x_off: i32,
) -> (plan: Option<OutputPlan>)
    requires
        is_plannable(*connector, crtcs@, used_crtcs@) ==> modes_fit(*connector),
    ensures
        plan is Some <==> is_plannable(*connector, crtcs@, used_crtcs@),
        plan matches Some(p) ==> is_plan_for(p, id, *connector, crtcs@, used_crtcs@, x_off),
{
    if !connector.connected {
        return None;
    }
    let mode_place: usize = match select_mode(&connector.modes) {
        Some(place) => place,
        None => {
            return None;
        },
    };
    let mode = connector.modes[mode_place];
    let crtc: u32 = match pick_crtc(connector, crtcs, used_crtcs) {
        Some(crtc) => crtc,
        None => {
            return None;
        },
    };
    proof {
        selected_mode_is_reported(connector.modes@);
    }
    let mut modes = register_modes(&connector.modes);
    let current = to_output_mode(mode);
    add_mode(&mut modes, current);
    let physical_size = match connector.physical_size {
        Some((w, h)) => Size { w: to_i32(w), h: to_i32(h) },
        None => Size { w: 0, h: 0 },
    };
    let name = name_of(connector);
    let output = Output {
        id,
        name: name.clone(),
        make: "Unknown".to_string(),
        model: name,
        physical_size,
        modes,
        current_mode: Some(current),
        preferred_mode: Some(current),
        location: Point { x: x_off, y: 0 },
        transform: OutputTransform::Normal,
        scale: Scale::Integer { factor: 1 },
    };
    Some(OutputPlan { output, mode, mode_place, crtc, connector: connector.handle })
}

/// Whether `plan` is that of a connector.
pub open spec fn is_plan_for(
    plan: OutputPlan,
    id: u64,
    connector: Connector,
    crtcs: Seq<u32>,
    used: Seq<u32>,
    x_off: i32,
) -> bool {
    &&& plan.output@ == planned_output(id, connector, x_off)
    &&& selected_place(connector.modes@) == Some(plan.mode_place as int)
    &&& plan.mode == connector.modes@[plan.mode_place as int]
    &&& Some(plan.crtc) == free_crtc(connector, crtcs, used)
    &&& plan.connector == connector.handle
}

impl DrmScan {
    /// No CRTC is taken twice, and the outputs that the scan has set up stand side by
    /// side.
    pub open spec fn valid(self, outputs: Seq<OutputView>) -> bool {
        &&& self.used_crtcs@.no_duplicates()
        &&& self.next <= self.connectors@.len()
        &&& self.first <= outputs.len()
        &&& is_row(self.start as int, outputs.skip(self.first as int))
        &&& row_end(self.start as int, outputs.skip(self.first as int)) == self.x_off
    }

    /// Whether `plan` can be taken over now.
    pub open spec fn expects(self, plan: OutputPlan) -> bool {
        &&& !self.used_crtcs@.contains(plan.crtc)
        &&& plan.output.location == (Point { x: self.x_off, y: 0 })
        &&& plan.output.current_mode matches Some(mode) && mode.size.w == plan.mode.width
    }

    /// Begins with the first connector, with no CRTC taken, at the left.
    pub fn new(connectors: Vec<Connector>, crtcs: Vec<u32>, outputs: &Vec<Output>) -> (scan: Self)
        ensures
            scan == (DrmScan {
                connectors,
                crtcs,
                next: 0,
                used_crtcs: scan.used_crtcs,
                first: scan.first,
                start: 0,
                x_off: 0,
            }),
            scan.used_crtcs@ == Seq::<u32>::empty(),
            scan.first == outputs@.len(),
            scan.valid(output_views(outputs@)),
    {
        DrmScan {
            connectors,
            crtcs,
            next: 0,
            used_crtcs: Vec::new(),
            first: outputs.len(),
            start: 0,
            x_off: 0,
        }
    }

    /// Begins with those connectors of a GPU that are named in `names`, whose monitors were
    /// plugged in later. The CRTCs that the GPU draws with are taken, and the new outputs
    /// go to the right of all that there are.
    pub fn for_new_monitors(
        state: &BlueState,
        node: u64,
        connectors: Vec<Connector>,
        crtcs: Vec<u32>,
        names: &Vec<String>,
    ) -> (scan: Self)
        requires
            ends_fit(output_views(state.outputs@)),
        ensures
            scan.connectors@ == connectors@.filter(is_one_of(names_view(names@))),
            scan.crtcs == crtcs,
            scan.next == 0,
            scan.used_crtcs@.no_duplicates(),
            forall|crtc: u32| #[trigger]
                scan.used_crtcs@.contains(crtc) <==> state.backend_data@.surface(
                    node,
                    crtc,
                ) is Some,
            scan.first == state.outputs@.len(),
            scan.start == right_end(output_views(state.outputs@)),
            scan.x_off == scan.start,
            scan.valid(output_views(state.outputs@)),
    {
        let used_crtcs = match gpu_at(&state.backend_data, node) {
            Some(gpu) => collect_keys(&gpu.surfaces),
            None => Vec::new(),
        };
        let start: i32 = find_right_end(&state.outputs);
        let wanted = keep_named(connectors, names);
        DrmScan {
            connectors: wanted,
            crtcs,
            next: 0,
            used_crtcs,
            first: state.outputs.len(),
            start,
            x_off: start,
        }
    }

    /// The place of the next connector that gets an output.
    pub fn next_connector(&self) -> (place: Option<usize>)
        requires
            self.next <= self.connectors@.len(),
        ensures
            match place {
                Some(i) => self.next <= i < self.connectors@.len() && next_plannable(
                    self.connectors@,
                    self.crtcs@,
                    self.used_crtcs@,
                    self.next as int,
                ) == Some(i as int),
                None => next_plannable(
                    self.connectors@,
                    self.crtcs@,
                    self.used_crtcs@,
                    self.next as int,
                ) is None,
            },
    {
        let ghost found = next_plannable(
            self.connectors@,
            self.crtcs@,
            self.used_crtcs@,
            self.next as int,
        );
        for i in self.next..self.connectors.len()
            invariant
                self.next <= i,
                self.next <= self.connectors@.len(),
                found == next_plannable(
                    self.connectors@,
                    self.crtcs@,
                    self.used_crtcs@,
                    self.next as int,
                ),
                found == next_plannable(self.connectors@, self.crtcs@, self.used_crtcs@, i as int),
        {
            let connector = &self.connectors[i];
            if connector.connected && select_mode(&connector.modes).is_some() && pick_crtc(
                connector,
                &self.crtcs,
                &self.used_crtcs,
            ).is_some() {
                return Some(i);
            }
        }
        None
    }

    /// Looks for the next connector that gets an output, and plans it. `id` is for the
    /// new output. Without a plan the scan is over.
    pub fn next_output(&mut self, id: u64) -> (plan: Option<OutputPlan>)
        requires
            old(self).next <= old(self).connectors@.len(),
            next_plannable(
                old(self).connectors@,
                old(self).crtcs@,
                old(self).used_crtcs@,
                old(self).next as int,
            ) matches Some(i) ==> modes_fit(old(self).connectors@[i]),
        ensures
            match next_plannable(
                old(self).connectors@,
                old(self).crtcs@,
                old(self).used_crtcs@,
                old(self).next as int,
            ) {
                Some(i) => {
                    &&& plan matches Some(p) && is_plan_for(
                        p,
                        id,
                        old(self).connectors@[i],
                        old(self).crtcs@,
                        old(self).used_crtcs@,
                        old(self).x_off,
                    ) && final(self).expects(p)
                    &&& old(self).next <= i < old(self).connectors@.len()
                    &&& final(self).next == i + 1
                },
                None => plan is None && final(self).next == old(self).connectors@.len(),
            },
            *final(self) == (DrmScan { next: final(self).next, ..*old(self) }),
    {
        let count: usize = self.connectors.len();
        let i: usize = match self.next_connector() {
            Some(i) => i,
            None => {
                self.next = count;
                return None;
            },
        };
        proof {
            next_plannable_is_plannable(
                self.connectors@,
                self.crtcs@,
                self.used_crtcs@,
                self.next as int,
            );
            the_first_free_crtc_is_taken(
                self.connectors@[i as int],
                self.crtcs@,
                self.used_crtcs@,
            );
        }
        self.next = i + 1;
        plan_output(id, &self.connectors[i], &self.crtcs, &self.used_crtcs, self.x_off)
    }

    /// Takes a planned output over. `created` says whether a surface could be made for
    /// it. Without one the output exists, but its CRTC stays free.
    pub fn settle(&mut self, state: &mut BlueState, node: u64, plan: OutputPlan, created: bool)
        requires
            old(self).valid(output_views(old(state).outputs@)),
            old(self).expects(plan),
            fits_i32(old(self).x_off + plan.mode.width),
        ensures
            final(self).valid(output_views(final(state).outputs@)),
            *final(self) == (DrmScan {
                x_off: (old(self).x_off + plan.mode.width) as i32,
                used_crtcs: final(self).used_crtcs,
                ..*old(self)
            }),
            output_views(final(state).outputs@) == output_views(old(state).outputs@).push(
                plan.output@,
            ),
            final(self).x_off == old(self).x_off + plan.mode.width,
            created && old(state).backend_data@.gpu(node) is Some ==> {
                &&& final(self).used_crtcs@.contains(plan.crtc)
                &&& final(state).backend_data@.surface(node, plan.crtc) matches Some(s) && s.output
                    == plan.output.id && s.output_name == plan.output.name@ && s.connector
                    == plan.connector
            },
            !created ==> !final(self).used_crtcs@.contains(plan.crtc),
            ({
                let gpu = old(state).backend_data@.gpu(node);
                if created && gpu is Some {
                    &&& final(self).used_crtcs@ == old(self).used_crtcs@.push(plan.crtc)
                    &&& final(state).backend_data@ == old(state).backend_data@.with_gpu(
                        node,
                        with_surface(gpu->0, plan),
                    )
                } else {
                    &&& final(self).used_crtcs@ == old(self).used_crtcs@
                    &&& final(state).backend_data@ == old(state).backend_data@
                }
            }),
            *final(state) == (BlueState {
                outputs: final(state).outputs,
                backend_data: final(state).backend_data,
                ..*old(state)
            }),
    {
        let ghost backend = state.backend_data@;
        let ghost outputs = output_views(state.outputs@);
        if created {
            match take_gpu(&mut state.backend_data, node) {
                Some(mut gpu) => {
                    let ghost before = gpu@;
                    gpu.surfaces.insert(
                        plan.crtc,
                        OutputRenderSurface {
                            output: plan.output.id,
                            output_name: plan.output.name.clone(),
                            connector: plan.connector,
                        },
                    );
                    assert(gpu@.surfaces =~= with_surface(before, plan).surfaces);
                    put_gpu(&mut state.backend_data, node, gpu);
                    assert(state.backend_data@->devices =~= backend->devices.insert(node, gpu@));
                    self.used_crtcs.push(plan.crtc);
                    assert(self.used_crtcs@[old(self).used_crtcs@.len() as int] == plan.crtc);
                },
                None => {
                    assert(backend is Udev ==> state.backend_data@->devices =~= backend->devices);
                    assert(state.backend_data@ == backend);
                },
            }
        }
        state.outputs.push(plan.output);
        assert(output_views(state.outputs@) =~= outputs.push(plan.output@));
        self.x_off = self.x_off + plan.mode.width as i32;
        proof {
            let first = self.first as int;
            assert(outputs.push(plan.output@).skip(first) =~= outputs.skip(first).push(
                plan.output@,
            ));
            a_row_grows_at_its_end(self.start as int, outputs.skip(first), plan.output@);
        }
    }
}

/// Keeps the connectors that are named.
fn keep_named(connectors: Vec<Connector>, names: &Vec<String>) -> (wanted: Vec<Connector>)
    ensures
        wanted@ == connectors@.filter(is_one_of(names_view(names@))),
{
    let ghost all = connectors@;
    let ghost p = is_one_of(names_view(names@));
    let count: usize = connectors.len();
    let mut left = connectors;
    let mut wanted: Vec<Connector> = Vec::new();
    proof {
        reveal(Seq::filter);
        assert(wanted@ =~= all.take(0).filter(p));
    }
    for i in 0..count
        invariant
            p == is_one_of(names_view(names@)),
            count == all.len(),
            left@ == all.skip(i as int),
            wanted@ == all.take(i as int).filter(p),
    {
        proof {
            crate::search::filter_step(all, p, i as int);
        }
        let connector = left.remove(0);
        assert(connector == all[i as int]);
        assert(left@ =~= all.skip(i + 1));
        if has_name(names, &name_of(&connector)) {
            wanted.push(connector);
        }
    }
    assert(all.take(count as int) =~= all);
    wanted
}

/// Finds where the outputs end at the right.
fn find_right_end(outputs: &Vec<Output>) -> (end: i32)
    requires
        ends_fit(output_views(outputs@)),
    ensures
        end == right_end(output_views(outputs@)),
{
    let ghost views = output_views(outputs@);
    let mut end: i32 = 0;
    for i in 0..outputs.len()
        invariant
            views == output_views(outputs@),
            ends_fit(views),
            end == right_end(views.take(i as int)),
    {
        assert(views.take(i + 1).drop_last() =~= views.take(i as int));
        assert(views[i as int] == outputs@[i as int]@);
        assert(fits_i32(output_end(views[i as int])));
        let width: i32 = match outputs[i].current_mode {
            Some(mode) => mode.size.w,
            None => 0,
        };
        let here: i32 = outputs[i].location.x + width;
        if here > end {
            end = here;
        }
    }
    assert(views.take(views.len() as int) =~= views);
    end
}

/// The names of the connectors that have a monitor.
pub fn connected_names(connectors: &Vec<Connector>) -> (names: Vec<String>)
    ensures
        names_view(names@) == connectors@.filter(is_connected()).map_values(
            |c: Connector| connector_name(c.interface, c.handle),
        ),
{
    let ghost all = connectors@;
    let ghost f = |c: Connector| connector_name(c.interface, c.handle);
    let mut names: Vec<String> = Vec::new();
    proof {
        reveal(Seq::filter);
        assert(names_view(names@) =~= all.take(0).filter(is_connected()).map_values(f));
    }
    for i in 0..connectors.len()
        invariant
            all == connectors@,
            f == (|c: Connector| connector_name(c.interface, c.handle)),
            names_view(names@) == all.take(i as int).filter(is_connected()).map_values(f),
    {
        proof {
            crate::search::filter_step(all, is_connected(), i as int);
        }
        if connectors[i].connected {
            let ghost before = names_view(names@);
            let ghost found = all.take(i as int).filter(is_connected());
            names.push(name_of(&connectors[i]));
            assert(names_view(names@) =~= before.push(f(all[i as int])));
            assert(found.push(all[i as int]).map_values(f) =~= found.map_values(f).push(
                f(all[i as int]),
            ));
        }
    }
    assert(all.take(all.len() as int) =~= all);
    names
}

proof fn next_plannable_is_plannable(
    connectors: Seq<Connector>,
    crtcs: Seq<u32>,
    used: Seq<u32>,
    from: int,
)
    requires
        0 <= from,
    ensures
        next_plannable(connectors, crtcs, used, from) matches Some(i) ==> from <= i
            < connectors.len() && is_plannable(connectors[i], crtcs, used),
    decreases connectors.len() - from,
{
    if from < connectors.len() && !is_plannable(connectors[from], crtcs, used) {
        next_plannable_is_plannable(connectors, crtcs, used, from + 1);
    }
}

/// `gpu` with the surface of a planned output.
pub open spec fn with_surface(gpu: GpuView, plan: OutputPlan) -> GpuView {
    GpuView {
        surfaces: gpu.surfaces.insert(
            plan.crtc,
            SurfaceView {
                output: plan.output.id,
                output_name: plan.output.name@,
                connector: plan.connector,
            },
        ),
        ..gpu
    }
}

/// The mode that is selected is one that the connector reports.
pub proof fn selected_mode_is_reported(modes: Seq<DrmMode>)
    ensures
        selected_mode(modes) matches Some(mode) ==> exists|i: int|
            0 <= i < modes.len() && #[trigger] modes[i] == mode,
        selected_mode(modes) is None <==> modes.len() == 0,
{
    preferred_mode_is_best(modes);
    match best_preferred(modes) {
        Some(i) => {
            assert(selected_mode(modes) == Some(modes[i]));
        },
        None => {
            if modes.len() > 0 {
                assert(selected_mode(modes) == Some(modes[0]));
            }
        },
    }
}

/// The preferred mode that is selected has the highest refresh rate of all preferred
/// modes, and is the last of those that share it. There is none only if no mode is
/// preferred.
pub proof fn preferred_mode_is_best(modes: Seq<DrmMode>)
    ensures
        best_preferred(modes) matches Some(i) ==> {
            &&& 0 <= i < modes.len()
            &&& modes[i].preferred
            &&& forall|j: int|
                0 <= j < modes.len() && (#[trigger] modes[j]).preferred ==> modes[j].vrefresh
                    <= modes[i].vrefresh
            &&& forall|j: int|
                i < j < modes.len() && (#[trigger] modes[j]).preferred ==> modes[j].vrefresh
                    < modes[i].vrefresh
        },
        best_preferred(modes) is None <==> forall|j: int|
            0 <= j < modes.len() ==> !(#[trigger] modes[j]).preferred,
    decreases modes.len(),
{
    if modes.len() > 0 {
        let fewer = modes.drop_last();
        preferred_mode_is_best(fewer);
        assert forall|j: int| 0 <= j < fewer.len() implies fewer[j] == #[trigger] modes[j] by {}
        match best_preferred(fewer) {
            Some(i) => {
                assert(fewer[i] == modes[i]);
            },
            None => {
                assert forall|j: int| 0 <= j < fewer.len() implies !(#[trigger] modes[j]).preferred by {
                    assert(!fewer[j].preferred);
                }
            },
        }
    }
}

/// A connector gets a CRTC that can drive it and is not taken, the first such one. It
/// goes without only if all that can drive it are taken.
pub proof fn the_first_free_crtc_is_taken(connector: Connector, crtcs: Seq<u32>, used: Seq<u32>)
    ensures
        free_crtc(connector, crtcs, used) matches Some(crtc) ==> candidate_crtcs(
            connector.encoder_crtcs@,
            crtcs,
        ).contains(crtc) && !used.contains(crtc),
        free_crtc(connector, crtcs, used) is None ==> forall|i: int|
            0 <= i < candidate_crtcs(connector.encoder_crtcs@, crtcs).len() ==> used.contains(
                #[trigger] candidate_crtcs(connector.encoder_crtcs@, crtcs)[i],
            ),
{
    let candidates = candidate_crtcs(connector.encoder_crtcs@, crtcs);
    crate::search::first_match_meaning(candidates, is_free(used));
    if free_crtc(connector, crtcs, used) is None {
        assert forall|i: int| 0 <= i < candidates.len() implies used.contains(
            #[trigger] candidates[i],
        ) by {
            assert(!is_free(used)(candidates[i]));
        }
    }
}

/// An output that was just planned is valid: no mode is listed twice, and the current
/// mode is listed.
pub proof fn planned_outputs_are_valid(id: u64, connector: Connector, x_off: i32)
    requires
        selected_mode(connector.modes@) is Some,
    ensures
        planned_output(id, connector, x_off).valid(),
{
    registered_modes_are_distinct(connector.modes@);
    crate::output::modes_stay_distinct(
        registered_modes(connector.modes@),
        output_mode(selected_mode(connector.modes@)->0),
    );
}

/// A mode that a connector reports more than once is registered once, none is left out,
/// and none is registered that the connector does not report.
pub proof fn registered_modes_are_distinct(modes: Seq<DrmMode>)
    ensures
        registered_modes(modes).no_duplicates(),
        forall|i: int|
            0 <= i < modes.len() ==> registered_modes(modes).contains(
                output_mode(#[trigger] modes[i]),
            ),
        forall|m: OutputMode| #[trigger]
            registered_modes(modes).contains(m) ==> exists|i: int|
                0 <= i < modes.len() && output_mode(#[trigger] modes[i]) == m,
    decreases modes.len(),
{
    if modes.len() > 0 {
        let fewer = modes.drop_last();
        registered_modes_are_distinct(fewer);
        crate::output::modes_stay_distinct(registered_modes(fewer), output_mode(modes.last()));
        assert forall|i: int| 0 <= i < modes.len() implies registered_modes(modes).contains(
            output_mode(#[trigger] modes[i]),
        ) by {
            if i < fewer.len() {
                assert(fewer[i] == modes[i]);
                assert(registered_modes(fewer).contains(output_mode(fewer[i])));
            }
        }
        assert forall|m: OutputMode| #[trigger] registered_modes(modes).contains(m) implies exists|
            i: int,
        | 0 <= i < modes.len() && output_mode(#[trigger] modes[i]) == m by {
            let k = choose|k: int|
                0 <= k < registered_modes(modes).len() && registered_modes(modes)[k] == m;
            if k < registered_modes(fewer).len() {
                assert(registered_modes(fewer)[k] == m);
                assert(registered_modes(fewer).contains(m));
                let i = choose|i: int| 0 <= i < fewer.len() && output_mode(#[trigger] fewer[i]) == m;
                assert(output_mode(modes[i]) == m);
            } else {
                assert(output_mode(modes[modes.len() - 1]) == m);
            }
        }
    }
}

/// The width that an output takes up.
pub open spec fn width_of(output: OutputView) -> int {
    match output.current_mode {
        Some(mode) => mode.size.w as int,
        None => 0,
    }
}

/// Where an output ends at the right.
pub open spec fn output_end(output: OutputView) -> int {
    output.location.x + width_of(output)
}

/// Whether the right end of every output is in the coordinate space.
pub open spec fn ends_fit(outputs: Seq<OutputView>) -> bool {
    forall|i: int| 0 <= i < outputs.len() ==> fits_i32(output_end(#[trigger] outputs[i]))
}

/// Where the outputs end at the right, at least at the origin.
pub open spec fn right_end(outputs: Seq<OutputView>) -> int
    decreases outputs.len(),
{
    if outputs.len() == 0 {
        0
    } else {
        greater(output_end(outputs.last()), right_end(outputs.drop_last()))
    }
}

/// Where a row of outputs ends that begins at `start`.
pub open spec fn row_end(start: int, row: Seq<OutputView>) -> int
    decreases row.len(),
{
    if row.len() == 0 {
        start
    } else {
        row_end(start, row.drop_last()) + width_of(row.last())
    }
}

/// Whether the output at `i` begins where those before it end.
pub open spec fn follows_on(start: int, row: Seq<OutputView>, i: int) -> bool {
    row[i].location.x == row_end(start, row.take(i)) && row[i].location.y == 0
}

/// Whether the outputs stand side by side from `start` on, in order, without gaps.
pub open spec fn is_row(start: int, row: Seq<OutputView>) -> bool {
    forall|i: int| 0 <= i < row.len() ==> #[trigger] follows_on(start, row, i)
}

/// A row stays one when an output is put at its end, and its end moves by the width of
/// the output.
pub proof fn a_row_grows_at_its_end(start: int, row: Seq<OutputView>, output: OutputView)
    requires
        is_row(start, row),
        output.location.x == row_end(start, row),
        output.location.y == 0,
    ensures
        is_row(start, row.push(output)),
        row_end(start, row.push(output)) == row_end(start, row) + width_of(output),
{
    let longer = row.push(output);
    assert(longer.drop_last() =~= row);
    assert forall|i: int| 0 <= i < longer.len() implies #[trigger] follows_on(start, longer, i) by {
        if i < row.len() {
            assert(follows_on(start, row, i));
            assert(longer.take(i) =~= row.take(i));
        } else {
            assert(longer.take(i) =~= row);
        }
    }
}

/// No two outputs of a row overlap.
pub proof fn outputs_in_a_row_do_not_overlap(start: int, row: Seq<OutputView>, i: int, j: int)
    requires
        is_row(start, row),
        0 <= i < j < row.len(),
        forall|k: int| 0 <= k < row.len() ==> width_of(#[trigger] row[k]) >= 0,
    ensures
        row[i].location.x + width_of(row[i]) <= row[j].location.x,
    decreases j,
{
    assert(follows_on(start, row, j));
    assert(follows_on(start, row, j - 1));
    assert(row.take(j).drop_last() =~= row.take(j - 1));
    assert(row.take(j).last() == row[j - 1]);
    if i < j - 1 {
        outputs_in_a_row_do_not_overlap(start, row, i, j - 1);
        assert(width_of(row[j - 1]) >= 0);
    }
}

proof fn no_output_ends_later(outputs: Seq<OutputView>, i: int)
    requires
        0 <= i < outputs.len(),
    ensures
        output_end(outputs[i]) <= right_end(outputs),
    decreases outputs.len(),
{
    if i < outputs.len() - 1 {
        no_output_ends_later(outputs.drop_last(), i);
    }
}

/// The outputs of monitors that were plugged in later stand to the right of those that
/// there were.
pub proof fn later_outputs_stand_to_the_right(
    outputs: Seq<OutputView>,
    row: Seq<OutputView>,
    i: int,
    j: int,
)
    requires
        is_row(right_end(outputs), row),
        0 <= i < outputs.len(),
        0 <= j < row.len(),
        forall|k: int| 0 <= k < row.len() ==> width_of(#[trigger] row[k]) >= 0,
    ensures
        outputs[i].location.x + width_of(outputs[i]) <= row[j].location.x,
    decreases j,
{
    no_output_ends_later(outputs, i);
    assert(follows_on(right_end(outputs), row, j));
    if j > 0 {
        later_outputs_stand_to_the_right(outputs, row, i, j - 1);
        outputs_in_a_row_do_not_overlap(right_end(outputs), row, j - 1, j);
        assert(width_of(row[j - 1]) >= 0);
    } else {
        assert(row.take(0) =~= Seq::<OutputView>::empty());
    }
}

/// An output has a connector's mode in its size, and its refresh rate in thousandths.
pub proof fn modes_keep_size_and_rate(mode: DrmMode)
    requires
        refresh_fits(mode),
        mode.vrefresh <= i32::MAX,
    ensures
        output_mode(mode).size.w == mode.width,
        output_mode(mode).size.h == mode.height,
        output_mode(mode).refresh == 1000 * mode.vrefresh,
{
}

/// Every refresh rate of two million hertz and less can be told in thousandths.
pub proof fn ordinary_rates_can_be_told(mode: DrmMode)
    requires
        mode.vrefresh <= 2_000_000,
    ensures
        refresh_fits(mode),
{
}

/// The mode that a connector is driven with: where some mode is preferred, one of the highest
/// refresh rate among them, the last such; otherwise the first.
pub proof fn the_selected_mode_is_the_best(modes: Seq<DrmMode>, j: int)
    requires
        0 <= j < modes.len(),
    ensures
        selected_place(modes) matches Some(i) && 0 <= i < modes.len() && selected_mode(modes)
            == Some(modes[i]) && {
            &&& modes[j].preferred ==> modes[i].preferred && modes[j].vrefresh <= modes[i].vrefresh
            &&& modes[j].preferred && j > i ==> modes[j].vrefresh < modes[i].vrefresh
            &&& !modes[i].preferred ==> i == 0 && !modes[j].preferred
        },
{
    preferred_mode_is_best(modes);
    match best_preferred(modes) {
        Some(i) => {
            assert(modes[j].preferred ==> modes[j].vrefresh <= modes[i].vrefresh);
        },
        None => {
            assert(!modes[j].preferred);
            assert(!modes[0].preferred);
        },
    }
}

/// An output is named after the interface and the handle of its connector, in this order,
/// with a dash between them.
pub proof fn outputs_are_named_after_their_connector(interface: u8, handle: u32)
    ensures
        ({
            let name = connector_name(interface, handle);
            let n = decimal(interface as nat).len() as int;
            &&& crate::text::number(name.take(n)) == interface
            &&& name[n] == '-'
            &&& crate::text::number(name.skip(n + 1)) == handle
        }),
{
    reveal_strlit("-");
    let name = connector_name(interface, handle);
    let n = decimal(interface as nat).len() as int;
    assert(name.take(n) =~= decimal(interface as nat));
    assert(name.skip(n + 1) =~= decimal(handle as nat));
    crate::text::decimals_read_as_their_number(interface as nat);
    crate::text::decimals_read_as_their_number(handle as nat);
}

/// No two connectors of a GPU share a name.
pub proof fn connectors_are_told_apart_by_name(
    interface: u8,
    handle: u32,
    other_interface: u8,
    other_handle: u32,
)
    requires
        connector_name(interface, handle) == connector_name(other_interface, other_handle),
    ensures
        interface == other_interface,
        handle == other_handle,
{
    reveal_strlit("-");
    let name = connector_name(interface, handle);
    let a = decimal(interface as nat);
    let b = decimal(other_interface as nat);
    crate::text::decimals_read_as_their_number(interface as nat);
    crate::text::decimals_read_as_their_number(other_interface as nat);
    crate::text::decimals_read_as_their_number(handle as nat);
    crate::text::decimals_read_as_their_number(other_handle as nat);
    let n = a.len() as int;
    let m = b.len() as int;
    assert(name[n] == '-' && name[m] == '-');
    if n < m {
        assert(name[n] == b[n]);
        assert(48 <= b[n] as int);
    }
    if m < n {
        assert(name[m] == a[m]);
        assert(48 <= a[m] as int);
    }
    assert(name.take(n) =~= a && name.take(n) =~= b);
    assert(name.skip(n + 1) =~= decimal(handle as nat));
    assert(name.skip(n + 1) =~= decimal(other_handle as nat));
}

/// A connector gets the first CRTC that its encoders name and that is not taken; the first
/// of all that is not taken, where its encoders name none.
pub proof fn connectors_get_their_first_free_crtc(
    connector: Connector,
    crtcs: Seq<u32>,
    used: Seq<u32>,
    candidates: Seq<u32>,
    k: int,
)
    requires
        connector.encoder_crtcs@.len() == 0 ==> candidates == crtcs,
        connector.encoder_crtcs@.len() > 0 ==> candidates == connector.encoder_crtcs@,
        0 <= k < candidates.len(),
        !used.contains(candidates[k]),
        forall|j: int| 0 <= j < k ==> used.contains(#[trigger] candidates[j]),
    ensures
        free_crtc(connector, crtcs, used) == Some(candidates[k]),
{
    assert forall|j: int| 0 <= j < k implies !is_free(used)(#[trigger] candidates[j]) by {
        assert(used.contains(candidates[j]));
    }
    crate::search::first_match_at(candidates, is_free(used), k);
}

/// A connector gets an output exactly if it is connected, reports a mode, and some CRTC that
/// can drive it is free.
pub proof fn connected_monitors_get_an_output(
    connector: Connector,
    crtcs: Seq<u32>,
    used: Seq<u32>,
)
    ensures
        is_plannable(connector, crtcs, used) <==> connector.connected && connector.modes@.len() > 0
            && exists|i: int|
            0 <= i < candidate_crtcs(connector.encoder_crtcs@, crtcs).len() && !used.contains(
                #[trigger] candidate_crtcs(connector.encoder_crtcs@, crtcs)[i],
            ),
        candidate_crtcs(connector.encoder_crtcs@, crtcs) == if connector.encoder_crtcs@.len() > 0 {
            connector.encoder_crtcs@
        } else {
            crtcs
        },
{
    selected_mode_is_reported(connector.modes@);
    the_first_free_crtc_is_taken(connector, crtcs, used);
    let candidates = candidate_crtcs(connector.encoder_crtcs@, crtcs);
    if free_crtc(connector, crtcs, used) is Some {
        let crtc = free_crtc(connector, crtcs, used)->0;
        let i = choose|i: int| 0 <= i < candidates.len() && candidates[i] == crtc;
        assert(!used.contains(candidates[i]));
    }
}

/// A scan passes no connector over that gets an output, and stops at none that gets none.
pub proof fn no_monitor_is_passed_over(
    connectors: Seq<Connector>,
    crtcs: Seq<u32>,
    used: Seq<u32>,
    from: int,
    k: int,
)
    requires
        0 <= from <= k < connectors.len(),
    ensures
        match next_plannable(connectors, crtcs, used, from) {
            Some(i) => {
                &&& from <= i < connectors.len()
                &&& is_plannable(connectors[i], crtcs, used)
                &&& k < i ==> !is_plannable(connectors[k], crtcs, used)
            },
            None => !is_plannable(connectors[k], crtcs, used),
        },
    decreases connectors.len() - from,
{
    next_plannable_is_plannable(connectors, crtcs, used, from);
    if !is_plannable(connectors[from], crtcs, used) && from < k {
        no_monitor_is_passed_over(connectors, crtcs, used, from + 1, k);
    }
}

/// An output is set up as its monitor is: named after its connector, as large as it measures,
/// in the mode that it would rather have, neither turned nor scaled, and where the row ends.
pub proof fn outputs_are_set_up_as_their_monitor(id: u64, connector: Connector, x_off: i32)
    requires
        connector.modes@.len() > 0,
    ensures
        ({
            let output = planned_output(id, connector, x_off);
            &&& output.id == id
            &&& output.name == connector_name(connector.interface, connector.handle)
            &&& output.make == "Unknown"@
            &&& output.model == output.name
            &&& output.current_mode == Some(output_mode(selected_mode(connector.modes@)->0))
            &&& output.preferred_mode == output.current_mode
            &&& output.location.x == x_off && output.location.y == 0
            &&& output.transform == OutputTransform::Normal
            &&& output.scale == (Scale::Integer { factor: 1 })
            &&& connector.physical_size matches Some((w, h)) ==> (w <= i32::MAX
                ==> output.physical_size.w == w) && (h <= i32::MAX ==> output.physical_size.h == h)
            &&& connector.physical_size is None ==> output.physical_size.w == 0
                && output.physical_size.h == 0
            &&& forall|i: int|
                0 <= i < connector.modes@.len() ==> output.modes.contains(
                    output_mode(#[trigger] connector.modes@[i]),
                )
            &&& output.modes.no_duplicates()
        }),
{
    selected_mode_is_reported(connector.modes@);
    registered_modes_are_distinct(connector.modes@);
    let registered = registered_modes(connector.modes@);
    let mode = output_mode(selected_mode(connector.modes@)->0);
    crate::output::modes_stay_distinct(registered, mode);
    assert forall|i: int| 0 <= i < connector.modes@.len() implies with_mode(
        registered,
        mode,
    ).contains(output_mode(#[trigger] connector.modes@[i])) by {
        assert(registered.contains(output_mode(connector.modes@[i])));
    }
}

/// A plan drives the output with the mode that was selected, at its place among the modes of
/// the connector, on a CRTC that is free.
pub proof fn plans_use_what_was_selected(
    plan: OutputPlan,
    id: u64,
    connector: Connector,
    crtcs: Seq<u32>,
    used: Seq<u32>,
    x_off: i32,
)
    requires
        is_plan_for(plan, id, connector, crtcs, used, x_off),
    ensures
        plan.mode_place < connector.modes@.len(),
        plan.mode == connector.modes@[plan.mode_place as int],
        selected_mode(connector.modes@) == Some(plan.mode),
        plan.output@ == planned_output(id, connector, x_off),
        plan.connector == connector.handle,
        !used.contains(plan.crtc),
        free_crtc(connector, crtcs, used) == Some(plan.crtc),
{
    preferred_mode_is_best(connector.modes@);
    the_first_free_crtc_is_taken(connector, crtcs, used);
}

/// A new surface is on the CRTC of its plan, draws the output of its plan under its name, and
/// leaves the other surfaces of the GPU alone.
pub proof fn new_surfaces_draw_their_output(gpu: GpuView, plan: OutputPlan, crtc: u32)
    ensures
        ({
            let now = with_surface(gpu, plan);
            &&& now.surfaces.contains_key(plan.crtc)
            &&& now.surfaces[plan.crtc].output == plan.output.id
            &&& now.surfaces[plan.crtc].output_name == plan.output.name@
            &&& now.surfaces[plan.crtc].connector == plan.connector
            &&& now.has_renderer == gpu.has_renderer
            &&& crtc != plan.crtc ==> (now.surfaces.contains_key(crtc)
                <==> gpu.surfaces.contains_key(crtc))
            &&& crtc != plan.crtc && gpu.surfaces.contains_key(crtc) ==> now.surfaces[crtc]
                == gpu.surfaces[crtc]
        }),
{
}

/// The outputs end where the rightmost one does, or at the origin where none goes further.
pub proof fn the_outputs_end_at_the_rightmost(outputs: Seq<OutputView>)
    ensures
        right_end(outputs) >= 0,
        right_end(outputs) == 0 || exists|i: int|
            0 <= i < outputs.len() && right_end(outputs) == #[trigger] output_end(outputs[i]),
        forall|i: int|
            0 <= i < outputs.len() ==> #[trigger] output_end(outputs[i]) <= right_end(outputs),
    decreases outputs.len(),
{
    if outputs.len() > 0 {
        let fewer = outputs.drop_last();
        the_outputs_end_at_the_rightmost(fewer);
        if right_end(fewer) != 0 {
            let i = choose|i: int|
                0 <= i < fewer.len() && right_end(fewer) == #[trigger] output_end(fewer[i]);
            assert(output_end(outputs[i]) == right_end(fewer));
        }
        assert(output_end(outputs[outputs.len() - 1]) == output_end(outputs.last()));
        assert forall|i: int| 0 <= i < outputs.len() implies #[trigger] output_end(outputs[i])
            <= right_end(outputs) by {
            if i < fewer.len() {
                assert(output_end(fewer[i]) <= right_end(fewer));
            }
        }
    }
}

/// An output takes up as much room as its current mode is wide, from where it is on.
pub proof fn outputs_are_as_wide_as_their_mode(output: OutputView)
    ensures
        output.current_mode matches Some(mode) ==> output_end(output) - output.location.x
            == mode.size.w && width_of(output) == mode.size.w,
        output.current_mode is None ==> output_end(output) == output.location.x && width_of(output)
            == 0,
{
}

/// Exactly the connectors that have a monitor count as connected, and exactly those that are
/// named are looked at for new monitors.
pub proof fn named_connectors_are_looked_at(
    connectors: Seq<Connector>,
    names: Seq<Seq<char>>,
    connector: Connector,
)
    ensures
        connectors.filter(is_connected()).contains(connector) <==> connectors.contains(connector)
            && connector.connected,
        connectors.filter(is_one_of(names)).contains(connector) <==> connectors.contains(connector)
            && names.contains(connector_name(connector.interface, connector.handle)),
{
    crate::search::filter_membership(connectors, is_connected(), connector);
    crate::search::filter_membership(connectors, is_one_of(names), connector);
}

/// A row that begins at `start` ends there while it is empty, and each output of it begins
/// where those before it end.
pub proof fn rows_begin_at_their_start(start: int, row: Seq<OutputView>, i: int)
    requires
        is_row(start, row),
        0 <= i < row.len(),
    ensures
        row_end(start, Seq::empty()) == start,
        row[i].location.y == 0,
        i == 0 ==> row[i].location.x == start,
        i > 0 ==> row[i].location.x == row[i - 1].location.x + width_of(row[i - 1]),
{
    assert(follows_on(start, row, i));
    if i == 0 {
        assert(row.take(0) =~= Seq::<OutputView>::empty());
    } else {
        assert(follows_on(start, row, i - 1));
        assert(row.take(i).drop_last() =~= row.take(i - 1));
        assert(row.take(i).last() == row[i - 1]);
    }
}

} // verus!
