//! Reprogramming the hardware to another mode.

use crate::geometry::wrapped_i32;
use crate::maps::{collect_keys, lists_keys};
use crate::render::scan::{refresh_fits, to_output_mode, DrmMode};
use crate::render::udev::{devices_view, BackendData, BackendView, GpuDevice};
use crate::search::first_index;
use crate::state::BlueState;
use vstd::prelude::*;

verus! {

broadcast use vstd::std_specs::hash::group_hash_axioms;

/// Where a mode has to be set.
#[derive(Debug, Clone, Copy, PartialEq, Eq, Structural)]
pub enum ModesetTarget {
    /// Nowhere: there is no hardware below a nested compositor.
    NotNeeded,
    /// On the surface of that CRTC.
    Surface { node: u64, crtc: u32, connector: u32 },
    /// No surface draws the output.
    Missing,
}

/// Whether some surface draws an output of that name.
pub open spec fn draws_output(backend: BackendView, name: Seq<char>) -> bool {
    exists|node: u64, crtc: u32|
        (#[trigger] backend.surface(node, crtc)) matches Some(s) && s.output_name == name
}

/// Tells the modes of that size and refresh rate.
pub open spec fn is_mode(width: i32, height: i32, refresh_mhz: i32) -> spec_fn(DrmMode) -> bool {
    |m: DrmMode|
        m.width == width && m.height == height && wrapped_i32(m.vrefresh) * 1000 == refresh_mhz
}

/// Whether a mode was set, given what could be done: the modes of the connector, if
/// it could be read, and whether its surface and buffers could be created.
pub open spec fn modeset_succeeds(
    target: ModesetTarget,
    modes: Option<Seq<DrmMode>>,
    width: i32,
    height: i32,
    refresh_mhz: i32,
    surface_created: bool,
    buffers_created: bool,
) -> bool {
    match target {
        ModesetTarget::NotNeeded => true,
        ModesetTarget::Missing => false,
        ModesetTarget::Surface { .. } => {
            &&& modes matches Some(list) && first_index(
                list,
                is_mode(width, height, refresh_mhz),
            ) is Some
            &&& surface_created
            &&& buffers_created
        },
    }
}

fn find_surface(gpu: &GpuDevice, name: &String) -> (found: Option<(u32, u32)>)
    ensures
        match found {
            Some((crtc, connector)) => {
                &&& gpu@.surfaces.contains_key(crtc)
                &&& gpu@.surfaces[crtc].output_name == name@
                &&& gpu@.surfaces[crtc].connector == connector
            },
            None => forall|crtc: u32| #[trigger]
                gpu@.surfaces.contains_key(crtc) ==> gpu@.surfaces[crtc].output_name != name@,
        },
{
    let crtcs = collect_keys(&gpu.surfaces);
    for i in 0..crtcs.len()
        invariant
            lists_keys(crtcs@, gpu.surfaces@),
            forall|j: int|
                0 <= j < i ==> gpu.surfaces@[#[trigger] crtcs@[j]].output_name@ != name@,
    {
        assert(crtcs@.contains(crtcs@[i as int]));
        match gpu.surfaces.get(&crtcs[i]) {
            Some(surface) => {
                if surface.output_name == *name {
                    return Some((crtcs[i], surface.connector));
                }
            },
            None => {},
        }
    }
    assert forall|crtc: u32| #[trigger] gpu@.surfaces.contains_key(crtc) implies gpu@.surfaces[crtc].output_name
        != name@ by {
        assert(crtcs@.contains(crtc));
        let j = choose|j: int| 0 <= j < crtcs@.len() && crtcs@[j] == crtc;
        assert(crtcs@[j] == crtc);
    }
    None
}

/// Finds the surface that draws the output of a name. Where several do, which one is
/// found is not said.
pub fn modeset_target(state: &BlueState, output_name: &str) -> (target: ModesetTarget)
    ensures
        match target {
            ModesetTarget::NotNeeded => !(state.backend_data@ is Udev),
            ModesetTarget::Surface { node, crtc, connector } => {
                &&& state.backend_data@ is Udev
                &&& state.backend_data@.surface(node, crtc) matches Some(s) && s.output_name
                    == output_name@ && s.connector == connector
            },
            ModesetTarget::Missing => {
                &&& state.backend_data@ is Udev
                &&& !draws_output(state.backend_data@, output_name@)
            },
        },
        target is NotNeeded <==> !(state.backend_data@ is Udev),
        target is Surface <==> draws_output(state.backend_data@, output_name@),
{
    let udev = match &state.backend_data {
        BackendData::Udev { udev } => udev,
        _ => {
            return ModesetTarget::NotNeeded;
        },
    };
    let name = output_name.to_string();
    let nodes = collect_keys(&udev.devices);
    for i in 0..nodes.len()
        invariant
            state.backend_data@ matches BackendView::Udev { devices, .. } && devices
                == devices_view(udev.devices@),
            name@ == output_name@,
            lists_keys(nodes@, udev.devices@),
            forall|j: int, crtc: u32|
                0 <= j < i ==> !((#[trigger] state.backend_data@.surface(nodes@[j], crtc)) matches Some(
                    s,
                ) && s.output_name == output_name@),
    {
        assert(nodes@.contains(nodes@[i as int]));
        match udev.devices.get(&nodes[i]) {
            Some(gpu) => match find_surface(gpu, &name) {
                Some((crtc, connector)) => {
                    assert(state.backend_data@.gpu(nodes@[i as int]) == Some(gpu@));
                    return ModesetTarget::Surface { node: nodes[i], crtc, connector };
                },
                None => {
                    assert(state.backend_data@.gpu(nodes@[i as int]) == Some(gpu@));
                },
            },
            None => {},
        }
    }
    assert forall|node: u64, crtc: u32|
        !((#[trigger] state.backend_data@.surface(node, crtc)) matches Some(s) && s.output_name
            == output_name@) by {
        if state.backend_data@.surface(node, crtc) is Some {
            assert(nodes@.contains(node));
            let j = choose|j: int| 0 <= j < nodes@.len() && nodes@[j] == node;
            assert(state.backend_data@.surface(nodes@[j], crtc) == state.backend_data@.surface(
                node,
                crtc,
            ));
        }
    }
    ModesetTarget::Missing
}

/// Finds the mode of a connector with that size and refresh rate. Only a mode that the
/// monitor itself offers can be set.
pub fn matching_mode(modes: &Vec<DrmMode>, width: i32, height: i32, refresh_mhz: i32) -> (place:
    Option<usize>)
    requires
        forall|i: int|
            0 <= i < modes@.len() && (#[trigger] modes@[i]).width == width && modes@[i].height
                == height ==> refresh_fits(modes@[i]),
    ensures
        match place {
            Some(i) => i < modes@.len() && first_index(
                modes@,
                is_mode(width, height, refresh_mhz),
            ) == Some(i as int),
            None => first_index(modes@, is_mode(width, height, refresh_mhz)) is None,
        },
{
    let ghost p = is_mode(width, height, refresh_mhz);
    for i in 0..modes.len()
        invariant
            p == is_mode(width, height, refresh_mhz),
            forall|j: int|
                0 <= j < modes@.len() && (#[trigger] modes@[j]).width == width && modes@[j].height
                    == height ==> refresh_fits(modes@[j]),
            forall|j: int| 0 <= j < i ==> !p(#[trigger] modes@[j]),
    {
        let m = modes[i];
        if m.width as i32 == width && m.height as i32 == height {
            assert(refresh_fits(modes@[i as int]));
            if to_output_mode(m).refresh == refresh_mhz {
                proof {
                    crate::search::first_index_at(modes@, p, i as int);
                }
                return Some(i);
            }
        }
    }
    proof {
        crate::search::first_index_none(modes@, p);
    }
    None
}

/// Whether a mode was set on the hardware. `modes` are those of the connector, if it
/// could be read; the last two tell whether a surface with the mode and its buffers
/// could be created. On any failure the old surface stays.
pub fn apply_hardware_modeset(
    target: ModesetTarget,
    modes: &Option<Vec<DrmMode>>,
    width: i32,
    height: i32,
    refresh_mhz: i32,
    surface_created: bool,
    buffers_created: bool,
) -> (applied: bool)
    requires
        target is Surface && modes is Some ==> forall|i: int|
            0 <= i < modes->0@.len() && (#[trigger] modes->0@[i]).width == width
                && modes->0@[i].height == height ==> refresh_fits(modes->0@[i]),
    ensures
        applied == modeset_succeeds(
            target,
            match *modes {
                Some(list) => Some(list@),
                None => None,
            },
            width,
            height,
            refresh_mhz,
            surface_created,
            buffers_created,
        ),
{
    match target {
        ModesetTarget::NotNeeded => true,
        ModesetTarget::Missing => false,
        ModesetTarget::Surface { node: _, crtc: _, connector: _ } => match modes {
            Some(list) => matching_mode(list, width, height, refresh_mhz).is_some()
                && surface_created && buffers_created,
            None => false,
        },
    }
}

/// A mode that was registered on an output can be set on its connector: what clients
/// are offered is what the hardware can do.
pub proof fn offered_modes_can_be_set(modes: Seq<DrmMode>, i: int)
    requires
        0 <= i < modes.len(),
        refresh_fits(modes[i]),
    ensures
        ({
            let offered = crate::render::scan::output_mode(modes[i]);
            first_index(
                modes,
                is_mode(offered.size.w, offered.size.h, offered.refresh),
            ) is Some
        }),
{
    let offered = crate::render::scan::output_mode(modes[i]);
    let p = is_mode(offered.size.w, offered.size.h, offered.refresh);
    assert(p(modes[i]));
    crate::search::first_index_meaning(modes, p);
}

/// A mode can be set exactly if the monitor offers one of that size and of that refresh
/// rate, to the millihertz.
pub proof fn modes_match_in_size_and_rate(
    mode: DrmMode,
    width: i32,
    height: i32,
    refresh_mhz: i32,
)
    ensures
        is_mode(width, height, refresh_mhz)(mode) ==> mode.width == width && mode.height == height,
        mode.vrefresh <= i32::MAX ==> (is_mode(width, height, refresh_mhz)(mode) <==> mode.width
            == width && mode.height == height && 1000 * mode.vrefresh == refresh_mhz),
{
}

/// A nested compositor has no hardware to fail. Otherwise a mode is set exactly if a surface
/// draws the output, the monitor offers the mode, and the surface and its buffers could be
/// made.
pub proof fn modes_are_set_where_everything_went_well(
    target: ModesetTarget,
    modes: Option<Seq<DrmMode>>,
    width: i32,
    height: i32,
    refresh_mhz: i32,
    surface_created: bool,
    buffers_created: bool,
)
    ensures
        ({
            let set = modeset_succeeds(
                target,
                modes,
                width,
                height,
                refresh_mhz,
                surface_created,
                buffers_created,
            );
            &&& target is NotNeeded ==> set
            &&& target is Missing ==> !set
            &&& target is Surface ==> (set <==> surface_created && buffers_created && (
            modes matches Some(list) && exists|i: int|
                0 <= i < list.len() && is_mode(width, height, refresh_mhz)(#[trigger] list[i])))
        }),
{
    if modes is Some {
        crate::search::first_index_meaning(modes->0, is_mode(width, height, refresh_mhz));
    }
}

/// An output is drawn exactly if some surface of some GPU has its name.
pub proof fn outputs_are_drawn_by_name(backend: BackendView, name: Seq<char>, node: u64, crtc: u32)
    ensures
        (backend.surface(node, crtc) matches Some(s) && s.output_name == name) ==> draws_output(
            backend,
            name,
        ),
        !(backend is Udev) ==> !draws_output(backend, name),
{
}

} // verus!
