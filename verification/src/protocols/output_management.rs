//! `wlr-output-management`: monitor settings.

use crate::geometry::{Point, Size};
use crate::output::{
    add_mode, find_output, output_index, output_views, with_mode, Output, OutputMode, OutputView,
    OutputTransform, Scale,
};
use crate::search::first_index;
use crate::state::BlueState;
use std::collections::HashMap;
use vstd::prelude::*;
use wayland_server::backend::protocol::WEnumError;
use wayland_server::protocol::wl_output;
use wayland_server::WEnum;

verus! {

broadcast use vstd::std_specs::hash::group_hash_axioms;

/// A value of a protocol enum, as a client has sent it.
#[verifier::external_type_specification]
#[verifier::reject_recursive_types(T)]
pub struct ExWEnum<T>(WEnum<T>);

/// What stands for a value that its protocol enum does not have.
#[verifier::external_type_specification]
#[verifier::external_body]
pub struct ExWEnumError(WEnumError);

/// The transform of an output, in the protocol.
#[verifier::external_type_specification]
pub struct ExWlTransform(wl_output::Transform);

/// `WEnum::into_result`: the value, where the protocol enum has it, and an error
/// otherwise. Nothing is claimed of what the error holds.
pub assume_specification<T>[ WEnum::<T>::into_result ](value: WEnum<T>) -> (result: Result<
    T,
    WEnumError,
>)
    ensures
        match value {
            WEnum::Value(v) => result == Ok::<T, WEnumError>(v),
            WEnum::Unknown(_) => result is Err,
        },
;

/// The version of the protocol that is offered.
pub const OUTPUT_MANAGEMENT_VERSION: u32 = 4;

/// A head, and the manager that it was advertised to.
#[derive(Debug, Clone, Copy, PartialEq, Eq, Structural)]
pub struct AdvertisedHead {
    pub manager: u64,
    pub head: u64,
}

/// The heads that were advertised for the output of one name.
#[derive(Debug)]
pub struct AdvertisedOutput {
    pub name: String,
    pub heads: Vec<AdvertisedHead>,
}

/// An output that a manager has no head for, by its place among the outputs.
#[derive(Debug, Clone, Copy, PartialEq, Eq, Structural)]
pub struct MissingHead {
    pub manager: u64,
    pub place: usize,
}

/// What was created for a [`MissingHead`]: the head, if it could be, and an object for
/// each mode of the output where it could be.
#[derive(Debug)]
pub struct CreatedHead {
    pub manager: u64,
    pub place: usize,
    pub head: Option<u64>,
    pub objects: Vec<Option<u64>>,
}

/// One change that a client asks for on one output.
#[derive(Debug, Clone, Copy, PartialEq, Eq, Structural)]
pub enum HeadChange {
    Enable,
    Disable,
    Mode { w: i32, h: i32, refresh_mhz: i32 },
    Position { x: i32, y: i32 },
    Transform { transform: OutputTransform },
    /// A scale in 256ths.
    Scale { fixed: i32 },
}

/// A change and the name of the output that it is for.
#[derive(Debug)]
pub struct NamedChange {
    pub output_name: String,
    pub change: HeadChange,
}

/// The changes of one configuration that is not applied yet.
#[derive(Debug)]
pub struct PendingConfig {
    pub changes: Vec<NamedChange>,
}

/// What the compositor keeps for output-management clients.
#[derive(Debug)]
pub struct OutputManagementState {
    pub global: u64,
    pub managers: Vec<u64>,
    /// The advertised heads, one entry for each output name.
    pub heads: Vec<AdvertisedOutput>,
    /// Configurations in flight, by configuration object.
    pub pending: HashMap<u64, PendingConfig>,
    pub serial: u32,
}

/// The data of the global.
#[derive(Debug, Clone, Copy, PartialEq, Eq, Structural)]
pub struct OutputManagerGlobalData;

/// What a mode object stands for.
#[derive(Debug, Clone, Copy, PartialEq, Eq, Structural)]
pub struct ModeData {
    pub width: i32,
    pub height: i32,
    pub refresh_mhz: i32,
}

/// What a configuration head stands for: an output, in one configuration.
#[derive(Debug, Clone, PartialEq, Eq)]
pub struct ConfigHeadData {
    pub output_name: String,
    pub config_id: u64,
}

/// A request on a configuration.
#[derive(Debug, Clone, Copy, PartialEq, Eq, Structural)]
pub enum ConfigRequest {
    EnableHead { head: u64 },
    DisableHead { head: u64 },
    Apply,
    Destroy,
    Other,
}

/// A request on a configuration head.
#[derive(Debug, PartialEq, Eq)]
pub enum ConfigHeadRequest {
    /// A mode object, with what it stands for if that is known.
    SetMode { mode: Option<ModeData> },
    SetCustomMode { width: i32, height: i32, refresh: i32 },
    SetPosition { x: i32, y: i32 },
    SetTransform { transform: WEnum<wl_output::Transform> },
    /// A scale in 256ths.
    SetScale { fixed: i32 },
    SetAdaptiveSync,
    Other,
}

/// One thing to carry out for a configuration. A list of actions is carried out
/// in order.
#[derive(Debug, Clone, PartialEq, Eq)]
pub enum ConfigAction {
    UnmapOutput { output: u64 },
    MapOutput { output: u64, location: Point },
    ChangeMode { output: u64, mode: OutputMode },
    /// Reprogram the hardware; a failure is only worth a warning.
    Modeset { output_name: String, w: i32, h: i32, refresh_mhz: i32 },
    ChangeLocation { output: u64, location: Point },
    ChangeTransform { output: u64, transform: OutputTransform },
    ChangeScale { output: u64, scale: Scale },
    /// Tell the client that the configuration was applied.
    Succeeded,
}

/// [`ConfigAction`] with its text as a sequence of characters.
pub enum ConfigActionView {
    UnmapOutput { output: u64 },
    MapOutput { output: u64, location: Point },
    ChangeMode { output: u64, mode: OutputMode },
    Modeset { output_name: Seq<char>, w: i32, h: i32, refresh_mhz: i32 },
    ChangeLocation { output: u64, location: Point },
    ChangeTransform { output: u64, transform: OutputTransform },
    ChangeScale { output: u64, scale: Scale },
    Succeeded,
}

/// What a request on a configuration leads to.
#[derive(Debug)]
pub struct ConfigReply {
    /// What the new configuration head stands for, if one was asked for.
    pub head: Option<ConfigHeadData>,
    pub actions: Vec<ConfigAction>,
}

/// The end of a batch of changes, told to one manager.
#[derive(Debug, Clone, Copy, PartialEq, Eq, Structural)]
pub struct DoneEvent {
    pub manager: u64,
    pub serial: u32,
}

/// An event that describes a head or a mode, or ends a batch of them.
#[derive(Debug, PartialEq, Eq)]
pub enum HeadEvent {
    Head { manager: u64, head: u64 },
    Name { head: u64, name: String },
    Description { head: u64, description: String },
    PhysicalSize { head: u64, size: Size },
    Make { head: u64, make: String },
    Model { head: u64, model: String },
    ModeSize { mode: u64, size: Size },
    ModeRefresh { mode: u64, refresh: i32 },
    /// The output would rather have this mode.
    ModePreferred { mode: u64 },
    Mode { head: u64, mode: u64 },
    CurrentMode { head: u64, mode: u64 },
    Position { head: u64, location: Point },
    Transform { head: u64, transform: wl_output::Transform },
    Scale { head: u64, scale: Scale },
    Enabled { head: u64 },
    /// The output of the head is gone.
    Finished { head: u64 },
    Done { event: DoneEvent },
}

/// [`HeadEvent`] with its text as sequences of characters.
pub enum HeadEventView {
    Head { manager: u64, head: u64 },
    Name { head: u64, name: Seq<char> },
    Description { head: u64, description: Seq<char> },
    PhysicalSize { head: u64, size: Size },
    Make { head: u64, make: Seq<char> },
    Model { head: u64, model: Seq<char> },
    ModeSize { mode: u64, size: Size },
    ModeRefresh { mode: u64, refresh: i32 },
    /// The output would rather have this mode.
    ModePreferred { mode: u64 },
    Mode { head: u64, mode: u64 },
    CurrentMode { head: u64, mode: u64 },
    Position { head: u64, location: Point },
    Transform { head: u64, transform: wl_output::Transform },
    Scale { head: u64, scale: Scale },
    Enabled { head: u64 },
    Finished { head: u64 },
    Done { event: DoneEvent },
}

impl View for ConfigAction {
    type V = ConfigActionView;

    open spec fn view(&self) -> ConfigActionView {
        match *self {
            ConfigAction::UnmapOutput { output } => ConfigActionView::UnmapOutput { output },
            ConfigAction::MapOutput { output, location } => ConfigActionView::MapOutput {
                output,
                location,
            },
            ConfigAction::ChangeMode { output, mode } => ConfigActionView::ChangeMode {
                output,
                mode,
            },
            ConfigAction::Modeset {
                output_name,
                w,
                h,
                refresh_mhz,
            } => ConfigActionView::Modeset { output_name: output_name@, w, h, refresh_mhz },
            ConfigAction::ChangeLocation { output, location } => ConfigActionView::ChangeLocation {
                output,
                location,
            },
            ConfigAction::ChangeTransform {
                output,
                transform,
            } => ConfigActionView::ChangeTransform { output, transform },
            ConfigAction::ChangeScale { output, scale } => ConfigActionView::ChangeScale {
                output,
                scale,
            },
            ConfigAction::Succeeded => ConfigActionView::Succeeded,
        }
    }
}

impl View for HeadEvent {
    type V = HeadEventView;

    open spec fn view(&self) -> HeadEventView {
        match *self {
            HeadEvent::Head { manager, head } => HeadEventView::Head { manager, head },
            HeadEvent::Name { head, name } => HeadEventView::Name { head, name: name@ },
            HeadEvent::Description { head, description } => HeadEventView::Description {
                head,
                description: description@,
            },
            HeadEvent::PhysicalSize { head, size } => HeadEventView::PhysicalSize { head, size },
            HeadEvent::Make { head, make } => HeadEventView::Make { head, make: make@ },
            HeadEvent::Model { head, model } => HeadEventView::Model { head, model: model@ },
            HeadEvent::ModeSize { mode, size } => HeadEventView::ModeSize { mode, size },
            HeadEvent::ModeRefresh { mode, refresh } => HeadEventView::ModeRefresh {
                mode,
                refresh,
            },
            HeadEvent::ModePreferred { mode } => HeadEventView::ModePreferred { mode },
            HeadEvent::Mode { head, mode } => HeadEventView::Mode { head, mode },
            HeadEvent::CurrentMode { head, mode } => HeadEventView::CurrentMode { head, mode },
            HeadEvent::Position { head, location } => HeadEventView::Position { head, location },
            HeadEvent::Transform { head, transform } => HeadEventView::Transform {
                head,
                transform,
            },
            HeadEvent::Scale { head, scale } => HeadEventView::Scale { head, scale },
            HeadEvent::Enabled { head } => HeadEventView::Enabled { head },
            HeadEvent::Finished { head } => HeadEventView::Finished { head },
            HeadEvent::Done { event } => HeadEventView::Done { event },
        }
    }
}

/// The views of a list of actions.
pub open spec fn action_views(actions: Seq<ConfigAction>) -> Seq<ConfigActionView> {
    actions.map_values(|a: ConfigAction| a@)
}

/// The views of a list of events.
pub open spec fn head_event_views(events: Seq<HeadEvent>) -> Seq<HeadEventView> {
    events.map_values(|e: HeadEvent| e@)
}

/// The changes of a configuration, each with the characters of its output's name.
pub open spec fn changes_view(changes: Seq<NamedChange>) -> Seq<(Seq<char>, HeadChange)> {
    changes.map_values(|c: NamedChange| (c.output_name@, c.change))
}

/// The changes of every configuration in flight.
pub open spec fn pending_changes(pending: Map<u64, PendingConfig>) -> Map<
    u64,
    Seq<(Seq<char>, HeadChange)>,
> {
    pending.map_values(|p: PendingConfig| changes_view(p.changes@))
}

/// `pending` with one more change in a configuration.
pub open spec fn with_change(
    pending: Map<u64, Seq<(Seq<char>, HeadChange)>>,
    config: u64,
    name: Seq<char>,
    change: HeadChange,
) -> Map<u64, Seq<(Seq<char>, HeadChange)>> {
    let before = if pending.contains_key(config) {
        pending[config]
    } else {
        Seq::empty()
    };
    pending.insert(config, before.push((name, change)))
}

/// The advertised heads, with the characters of the names.
pub open spec fn heads_view(heads: Seq<AdvertisedOutput>) -> Seq<
    (Seq<char>, Seq<AdvertisedHead>),
> {
    heads.map_values(|a: AdvertisedOutput| (a.name@, a.heads@))
}

/// Tells the entry that is for the output `name`.
pub open spec fn is_entry_of(name: Seq<char>) -> spec_fn(
    (Seq<char>, Seq<AdvertisedHead>),
) -> bool {
    |e: (Seq<char>, Seq<AdvertisedHead>)| e.0 == name
}

/// Whether `head` is among `list`.
pub open spec fn holds_head(list: Seq<AdvertisedHead>, head: u64) -> bool {
    exists|k: int| 0 <= k < list.len() && (#[trigger] list[k]).head == head
}

/// Whether a head for `manager` is among `list`.
pub open spec fn holds_manager(list: Seq<AdvertisedHead>, manager: u64) -> bool {
    exists|k: int| 0 <= k < list.len() && (#[trigger] list[k]).manager == manager
}

/// Tells the entry that lists `head`.
pub open spec fn lists_head(head: u64) -> spec_fn((Seq<char>, Seq<AdvertisedHead>)) -> bool {
    |e: (Seq<char>, Seq<AdvertisedHead>)| holds_head(e.1, head)
}

/// Tells the entries of the outputs that there are.
pub open spec fn is_current(outputs: Seq<OutputView>) -> spec_fn(
    (Seq<char>, Seq<AdvertisedHead>),
) -> bool {
    |e: (Seq<char>, Seq<AdvertisedHead>)| output_index(outputs, e.0) is Some
}

/// Whether an entry gives `manager` a head for the output `name`.
pub open spec fn serves(
    entry: (Seq<char>, Seq<AdvertisedHead>),
    name: Seq<char>,
    manager: u64,
) -> bool {
    entry.0 == name && holds_manager(entry.1, manager)
}

/// Whether `manager` has a head for the output `name`.
pub open spec fn has_head_for(
    heads: Seq<(Seq<char>, Seq<AdvertisedHead>)>,
    name: Seq<char>,
    manager: u64,
) -> bool {
    exists|i: int| 0 <= i < heads.len() && serves(#[trigger] heads[i], name, manager)
}

/// `heads` with one more head for the output `name`.
pub open spec fn with_head(
    heads: Seq<(Seq<char>, Seq<AdvertisedHead>)>,
    name: Seq<char>,
    new: AdvertisedHead,
) -> Seq<(Seq<char>, Seq<AdvertisedHead>)> {
    match first_index(heads, is_entry_of(name)) {
        Some(i) => heads.update(i, (name, heads[i].1.push(new))),
        None => heads.push((name, seq![new])),
    }
}

/// The name of the output that `head` was advertised for, empty where it was
/// not.
pub open spec fn head_name(heads: Seq<(Seq<char>, Seq<AdvertisedHead>)>, head: u64) -> Seq<
    char,
> {
    match first_index(heads, lists_head(head)) {
        Some(i) => heads[i].0,
        None => Seq::empty(),
    }
}

/// Whether no two entries are for the same output.
pub open spec fn entries_are_distinct(heads: Seq<(Seq<char>, Seq<AdvertisedHead>)>) -> bool {
    forall|i: int, j: int| 0 <= i < j < heads.len() ==> heads[i].0 != heads[j].0
}

/// The transform that a client asks for. A value that the protocol does not have
/// counts as none.
pub open spec fn transform_from_wl(value: WEnum<wl_output::Transform>) -> OutputTransform {
    match value {
        WEnum::Value(t) => match t {
            wl_output::Transform::_90 => OutputTransform::Rotated90,
            wl_output::Transform::_180 => OutputTransform::Rotated180,
            wl_output::Transform::_270 => OutputTransform::Rotated270,
            wl_output::Transform::Flipped => OutputTransform::Flipped,
            wl_output::Transform::Flipped90 => OutputTransform::Flipped90,
            wl_output::Transform::Flipped180 => OutputTransform::Flipped180,
            wl_output::Transform::Flipped270 => OutputTransform::Flipped270,
            _ => OutputTransform::Normal,
        },
        WEnum::Unknown(_) => OutputTransform::Normal,
    }
}

/// A transform, in the protocol.
pub open spec fn transform_to_wl(t: OutputTransform) -> wl_output::Transform {
    match t {
        OutputTransform::Normal => wl_output::Transform::Normal,
        OutputTransform::Rotated90 => wl_output::Transform::_90,
        OutputTransform::Rotated180 => wl_output::Transform::_180,
        OutputTransform::Rotated270 => wl_output::Transform::_270,
        OutputTransform::Flipped => wl_output::Transform::Flipped,
        OutputTransform::Flipped90 => wl_output::Transform::Flipped90,
        OutputTransform::Flipped180 => wl_output::Transform::Flipped180,
        OutputTransform::Flipped270 => wl_output::Transform::Flipped270,
    }
}

/// The change that a request on a configuration head asks for.
pub open spec fn requested_change(request: ConfigHeadRequest) -> Option<HeadChange> {
    match request {
        ConfigHeadRequest::SetMode { mode } => match mode {
            Some(m) => Some(
                HeadChange::Mode { w: m.width, h: m.height, refresh_mhz: m.refresh_mhz },
            ),
            None => None,
        },
        ConfigHeadRequest::SetCustomMode { width, height, refresh } => Some(
            HeadChange::Mode { w: width, h: height, refresh_mhz: refresh },
        ),
        ConfigHeadRequest::SetPosition { x, y } => Some(HeadChange::Position { x, y }),
        ConfigHeadRequest::SetTransform { transform } => Some(
            HeadChange::Transform { transform: transform_from_wl(transform) },
        ),
        ConfigHeadRequest::SetScale { fixed } => Some(HeadChange::Scale { fixed }),
        _ => None,
    }
}

/// What the mode object of a mode stands for.
pub open spec fn mode_data(mode: OutputMode) -> ModeData {
    ModeData { width: mode.size.w, height: mode.size.h, refresh_mhz: mode.refresh }
}

/// The mode of that size and refresh rate.
pub open spec fn mode_of(w: i32, h: i32, refresh_mhz: i32) -> OutputMode {
    OutputMode { size: Size { w, h }, refresh: refresh_mhz }
}

/// `output` after one change.
pub open spec fn changed(output: OutputView, change: HeadChange) -> OutputView {
    match change {
        HeadChange::Enable => output,
        HeadChange::Disable => output,
        HeadChange::Mode { w, h, refresh_mhz } => OutputView {
            current_mode: Some(mode_of(w, h, refresh_mhz)),
            modes: with_mode(output.modes, mode_of(w, h, refresh_mhz)),
            ..output
        },
        HeadChange::Position { x, y } => OutputView { location: Point { x, y }, ..output },
        HeadChange::Transform { transform } => OutputView { transform, ..output },
        HeadChange::Scale { fixed } => OutputView { scale: Scale::Fractional { fixed }, ..output },
    }
}

/// What is carried out for one change on `output`.
pub open spec fn change_actions(output: OutputView, change: HeadChange) -> Seq<ConfigActionView> {
    match change {
        HeadChange::Disable => seq![ConfigActionView::UnmapOutput { output: output.id }],
        HeadChange::Enable => seq![
            ConfigActionView::MapOutput { output: output.id, location: output.location },
        ],
        HeadChange::Mode { w, h, refresh_mhz } => seq![
            ConfigActionView::ChangeMode { output: output.id, mode: mode_of(w, h, refresh_mhz) },
            ConfigActionView::Modeset { output_name: output.name, w, h, refresh_mhz },
        ],
        HeadChange::Position { x, y } => seq![
            ConfigActionView::ChangeLocation { output: output.id, location: Point { x, y } },
            ConfigActionView::MapOutput { output: output.id, location: Point { x, y } },
        ],
        HeadChange::Transform { transform } => seq![
            ConfigActionView::ChangeTransform { output: output.id, transform },
        ],
        HeadChange::Scale { fixed } => seq![
            ConfigActionView::ChangeScale {
                output: output.id,
                scale: Scale::Fractional { fixed },
            },
        ],
    }
}

/// The outputs after the changes, made one after the other. A change for a name
/// that no output has is passed over.
pub open spec fn outputs_after(
    outputs: Seq<OutputView>,
    changes: Seq<(Seq<char>, HeadChange)>,
) -> Seq<OutputView>
    decreases changes.len(),
{
    if changes.len() == 0 {
        outputs
    } else {
        let before = outputs_after(outputs, changes.drop_last());
        let (name, change) = changes.last();
        match output_index(before, name) {
            Some(i) => before.update(i, changed(before[i], change)),
            None => before,
        }
    }
}

/// What is carried out for the changes, one after the other.
pub open spec fn actions_for(
    outputs: Seq<OutputView>,
    changes: Seq<(Seq<char>, HeadChange)>,
) -> Seq<ConfigActionView>
    decreases changes.len(),
{
    if changes.len() == 0 {
        Seq::empty()
    } else {
        let before = outputs_after(outputs, changes.drop_last());
        let (name, change) = changes.last();
        actions_for(outputs, changes.drop_last()) + match output_index(before, name) {
            Some(i) => change_actions(before[i], change),
            None => Seq::empty(),
        }
    }
}

/// The changes of a configuration in flight, none where it is not.
pub open spec fn changes_of(pending: Map<u64, Seq<(Seq<char>, HeadChange)>>, config: u64) -> Seq<
    (Seq<char>, HeadChange),
> {
    if pending.contains_key(config) {
        pending[config]
    } else {
        Seq::empty()
    }
}

/// What is said of one mode of an output, if there is an object for it.
pub open spec fn mode_events(
    head: u64,
    mode: OutputMode,
    object: Option<u64>,
    output: OutputView,
) -> Seq<HeadEventView> {
    match object {
        Some(id) => {
            let described = seq![
                HeadEventView::ModeSize { mode: id, size: mode.size },
                HeadEventView::ModeRefresh { mode: id, refresh: mode.refresh },
            ];
            let preferred = if output.preferred_mode == Some(mode) {
                seq![HeadEventView::ModePreferred { mode: id }]
            } else {
                Seq::empty()
            };
            let offered = seq![HeadEventView::Mode { head, mode: id }];
            let current = if output.current_mode == Some(mode) {
                seq![HeadEventView::CurrentMode { head, mode: id }]
            } else {
                Seq::empty()
            };
            described + preferred + offered + current
        },
        None => Seq::empty(),
    }
}

/// What is said of the first `n` modes of an output.
pub open spec fn modes_events(
    head: u64,
    output: OutputView,
    objects: Seq<Option<u64>>,
    n: int,
) -> Seq<HeadEventView>
    decreases n,
{
    if n <= 0 {
        Seq::empty()
    } else {
        modes_events(head, output, objects, n - 1) + mode_events(
            head,
            output.modes[n - 1],
            objects[n - 1],
            output,
        )
    }
}

/// Everything that is said of an output: what it is, its modes, and how it is set
/// up now.
pub open spec fn head_events(
    manager: u64,
    head: u64,
    output: OutputView,
    objects: Seq<Option<u64>>,
) -> Seq<HeadEventView> {
    seq![
        HeadEventView::Head { manager, head },
        HeadEventView::Name { head, name: output.name },
        HeadEventView::Description { head, description: output.make + " "@ + output.model },
        HeadEventView::PhysicalSize { head, size: output.physical_size },
        HeadEventView::Make { head, make: output.make },
        HeadEventView::Model { head, model: output.model },
    ] + modes_events(head, output, objects, output.modes.len() as int) + seq![
        HeadEventView::Position { head, location: output.location },
        HeadEventView::Transform { head, transform: transform_to_wl(output.transform) },
        HeadEventView::Scale { head, scale: output.scale },
        HeadEventView::Enabled { head },
    ]
}

/// What is said of the heads whose outputs are gone, one after the other.
pub open spec fn finished_events(
    outputs: Seq<OutputView>,
    heads: Seq<(Seq<char>, Seq<AdvertisedHead>)>,
) -> Seq<HeadEventView>
    decreases heads.len(),
{
    if heads.len() == 0 {
        Seq::empty()
    } else {
        finished_events(outputs, heads.drop_last()) + if is_current(outputs)(heads.last()) {
            Seq::empty()
        } else {
            heads.last().1.map_values(
                |h: AdvertisedHead| HeadEventView::Finished { head: h.head },
            )
        }
    }
}

/// The outputs among the first `n` that `manager` has no head for.
pub open spec fn missing_for(
    heads: Seq<(Seq<char>, Seq<AdvertisedHead>)>,
    outputs: Seq<OutputView>,
    manager: u64,
    n: int,
) -> Seq<MissingHead>
    decreases n,
{
    if n <= 0 {
        Seq::empty()
    } else {
        let before = missing_for(heads, outputs, manager, n - 1);
        if has_head_for(heads, outputs[n - 1].name, manager) {
            before
        } else {
            before.push(MissingHead { manager, place: (n - 1) as usize })
        }
    }
}

/// The heads that are missing for `managers`, one manager after the other.
pub open spec fn missing_for_all(
    heads: Seq<(Seq<char>, Seq<AdvertisedHead>)>,
    outputs: Seq<OutputView>,
    managers: Seq<u64>,
) -> Seq<MissingHead>
    decreases managers.len(),
{
    if managers.len() == 0 {
        Seq::empty()
    } else {
        missing_for_all(heads, outputs, managers.drop_last()) + missing_for(
            heads,
            outputs,
            managers.last(),
            outputs.len() as int,
        )
    }
}

/// Whether `created` is what was created for the missing heads, in order.
pub open spec fn answers(
    missing: Seq<MissingHead>,
    created: Seq<CreatedHead>,
    outputs: Seq<OutputView>,
) -> bool {
    &&& created.len() == missing.len()
    &&& forall|i: int|
        0 <= i < created.len() ==> {
            let c = #[trigger] created[i];
            &&& c.manager == missing[i].manager
            &&& c.place == missing[i].place
            &&& c.place < outputs.len()
            &&& c.objects@.len() == outputs[c.place as int].modes.len()
        }
}

/// What is said of the heads that were created.
pub open spec fn announced(outputs: Seq<OutputView>, created: Seq<CreatedHead>) -> Seq<
    HeadEventView,
>
    decreases created.len(),
{
    if created.len() == 0 {
        Seq::empty()
    } else {
        let c = created.last();
        announced(outputs, created.drop_last()) + match c.head {
            Some(head) => head_events(c.manager, head, outputs[c.place as int], c.objects@),
            None => Seq::empty(),
        }
    }
}

/// `heads` with those that were created.
pub open spec fn with_created(
    heads: Seq<(Seq<char>, Seq<AdvertisedHead>)>,
    outputs: Seq<OutputView>,
    created: Seq<CreatedHead>,
) -> Seq<(Seq<char>, Seq<AdvertisedHead>)>
    decreases created.len(),
{
    if created.len() == 0 {
        heads
    } else {
        let c = created.last();
        let before = with_created(heads, outputs, created.drop_last());
        match c.head {
            Some(head) => with_head(
                before,
                outputs[c.place as int].name,
                AdvertisedHead { manager: c.manager, head },
            ),
            None => before,
        }
    }
}

/// What ends a batch: every manager is told of the serial.
pub open spec fn done_events(managers: Seq<u64>, serial: u32) -> Seq<HeadEventView> {
    managers.map_values(
        |manager: u64| HeadEventView::Done { event: DoneEvent { manager, serial } },
    )
}

/// Reads the transform that a client asks for.
pub fn requested_transform(value: WEnum<wl_output::Transform>) -> (t: OutputTransform)
    ensures
        t == transform_from_wl(value),
{
    match value.into_result() {
        Ok(known) => match known {
            wl_output::Transform::_90 => OutputTransform::Rotated90,
            wl_output::Transform::_180 => OutputTransform::Rotated180,
            wl_output::Transform::_270 => OutputTransform::Rotated270,
            wl_output::Transform::Flipped => OutputTransform::Flipped,
            wl_output::Transform::Flipped90 => OutputTransform::Flipped90,
            wl_output::Transform::Flipped180 => OutputTransform::Flipped180,
            wl_output::Transform::Flipped270 => OutputTransform::Flipped270,
            _ => OutputTransform::Normal,
        },
        Err(_) => OutputTransform::Normal,
    }
}

/// Writes a transform in the protocol.
pub fn protocol_transform(t: OutputTransform) -> (wl: wl_output::Transform)
    ensures
        wl == transform_to_wl(t),
{
    match t {
        OutputTransform::Normal => wl_output::Transform::Normal,
        OutputTransform::Rotated90 => wl_output::Transform::_90,
        OutputTransform::Rotated180 => wl_output::Transform::_180,
        OutputTransform::Rotated270 => wl_output::Transform::_270,
        OutputTransform::Flipped => wl_output::Transform::Flipped,
        OutputTransform::Flipped90 => wl_output::Transform::Flipped90,
        OutputTransform::Flipped180 => wl_output::Transform::Flipped180,
        OutputTransform::Flipped270 => wl_output::Transform::Flipped270,
    }
}

impl OutputManagementState {
    /// No client yet.
    pub fn new(global: u64) -> (state: Self)
        ensures
            state.global == global,
            state.managers@ == Seq::<u64>::empty(),
            state.heads@ == Seq::<AdvertisedOutput>::empty(),
            entries_are_distinct(heads_view(state.heads@)),
            state.pending@ == Map::<u64, PendingConfig>::empty(),
            state.serial == 0,
    {
        OutputManagementState {
            global,
            managers: Vec::new(),
            heads: Vec::new(),
            pending: HashMap::new(),
            serial: 0,
        }
    }

    /// The global that clients bind.
    pub fn global_id(&self) -> (global: u64)
        ensures
            global == self.global,
    {
        self.global
    }

    fn add_head(&mut self, name: &String, new: AdvertisedHead)
        ensures
            heads_view(final(self).heads@) == with_head(heads_view(old(self).heads@), name@, new),
            *final(self) == (OutputManagementState { heads: final(self).heads, ..*old(self) }),
    {
        let ghost before = heads_view(self.heads@);
        let ghost p = is_entry_of(name@);
        let count: usize = self.heads.len();
        for i in 0..count
            invariant
                *self == *old(self),
                count == self.heads@.len(),
                before == heads_view(self.heads@),
                p == is_entry_of(name@),
                forall|j: int| 0 <= j < i ==> !p(#[trigger] before[j]),
        {
            if self.heads[i].name == *name {
                proof {
                    crate::search::first_index_at(before, p, i as int);
                }
                self.heads[i].heads.push(new);
                assert(heads_view(self.heads@) =~= with_head(before, name@, new));
                return;
            }
        }
        proof {
            crate::search::first_index_none(before, p);
        }
        let mut heads: Vec<AdvertisedHead> = Vec::new();
        heads.push(new);
        self.heads.push(AdvertisedOutput { name: name.clone(), heads });
        assert(heads@ =~= seq![new]);
        assert(heads_view(self.heads@) =~= with_head(before, name@, new));
    }

    /// Finds the name of the output that a head was advertised for.
    pub fn output_name_for_head(&self, head: u64) -> (name: String)
        ensures
            name@ == head_name(heads_view(self.heads@), head),
    {
        let ghost all = heads_view(self.heads@);
        let ghost p = lists_head(head);
        for i in 0..self.heads.len()
            invariant
                all == heads_view(self.heads@),
                p == lists_head(head),
                forall|j: int| 0 <= j < i ==> !p(#[trigger] all[j]),
        {
            let list = &self.heads[i].heads;
            let mut found = false;
            for k in 0..list.len()
                invariant
                    found <==> exists|j: int| 0 <= j < k && (#[trigger] list@[j]).head == head,
            {
                if list[k].head == head {
                    found = true;
                }
            }
            assert(found == holds_head(list@, head));
            if found {
                proof {
                    crate::search::first_index_at(all, p, i as int);
                }
                return self.heads[i].name.clone();
            }
        }
        proof {
            crate::search::first_index_none(all, p);
        }
        String::new()
    }

    fn serves_output(&self, name: &String, manager: u64) -> (served: bool)
        ensures
            served == has_head_for(heads_view(self.heads@), name@, manager),
    {
        let ghost all = heads_view(self.heads@);
        for i in 0..self.heads.len()
            invariant
                all == heads_view(self.heads@),
                forall|j: int| 0 <= j < i ==> !serves(#[trigger] all[j], name@, manager),
        {
            if self.heads[i].name == *name {
                let list = &self.heads[i].heads;
                for k in 0..list.len()
                    invariant
                        forall|j: int| 0 <= j < k ==> (#[trigger] list@[j]).manager != manager,
                        list@ == all[i as int].1,
                        all[i as int].0 == name@,
                        i < all.len(),
                        all == heads_view(self.heads@),
                {
                    if list[k].manager == manager {
                        assert(list@[k as int].manager == manager);
                        assert(serves(all[i as int], name@, manager));
                        return true;
                    }
                }
            }
        }
        false
    }

    /// Adds a change to a configuration that is not applied yet.
    pub fn push_change(&mut self, config: u64, output_name: String, change: HeadChange)
        ensures
            pending_changes(final(self).pending@) == with_change(
                pending_changes(old(self).pending@),
                config,
                output_name@,
                change,
            ),
            *final(self) == (OutputManagementState { pending: final(self).pending, ..*old(self) }),
    {
        let mut changes = match self.pending.remove(&config) {
            Some(pending) => pending.changes,
            None => Vec::new(),
        };
        let ghost before = changes_view(changes@);
        changes.push(NamedChange { output_name, change });
        assert(changes_view(changes@) =~= before.push((output_name@, change)));
        self.pending.insert(config, PendingConfig { changes });
        assert(before =~= changes_of(pending_changes(old(self).pending@), config));
        assert(pending_changes(self.pending@) =~= with_change(
            pending_changes(old(self).pending@),
            config,
            output_name@,
            change,
        ));
    }
}

/// Makes one change on the output that it is for, and adds what has to be carried
/// out.
fn apply_change(outputs: &mut Vec<Output>, actions: &mut Vec<ConfigAction>, named: &NamedChange)
    ensures
        match output_index(output_views(old(outputs)@), named.output_name@) {
            Some(i) => {
                &&& output_views(final(outputs)@) == output_views(old(outputs)@).update(
                    i,
                    changed(output_views(old(outputs)@)[i], named.change),
                )
                &&& action_views(final(actions)@) == action_views(old(actions)@) + change_actions(
                    output_views(old(outputs)@)[i],
                    named.change,
                )
            },
            None => {
                &&& output_views(final(outputs)@) == output_views(old(outputs)@)
                &&& action_views(final(actions)@) == action_views(old(actions)@)
            },
        },
{
    let i: usize = match find_output(outputs, named.output_name.as_str()) {
        Some(i) => i,
        None => {
            return;
        },
    };
    let ghost before = output_views(outputs@);
    let ghost was = before[i as int];
    proof {
        crate::search::first_index_meaning(before, crate::output::is_named(named.output_name@));
    }
    let output: u64 = outputs[i].id;
    match named.change {
        HeadChange::Disable => {
            actions.push(ConfigAction::UnmapOutput { output });
        },
        HeadChange::Enable => {
            actions.push(ConfigAction::MapOutput { output, location: outputs[i].location });
        },
        HeadChange::Mode { w, h, refresh_mhz } => {
            let mode = OutputMode { size: Size { w, h }, refresh: refresh_mhz };
            add_mode(&mut outputs[i].modes, mode);
            outputs[i].current_mode = Some(mode);
            actions.push(ConfigAction::ChangeMode { output, mode });
            actions.push(
                ConfigAction::Modeset {
                    output_name: named.output_name.clone(),
                    w,
                    h,
                    refresh_mhz,
                },
            );
        },
        HeadChange::Position { x, y } => {
            let location = Point { x, y };
            outputs[i].location = location;
            actions.push(ConfigAction::ChangeLocation { output, location });
            actions.push(ConfigAction::MapOutput { output, location });
        },
        HeadChange::Transform { transform } => {
            outputs[i].transform = transform;
            actions.push(ConfigAction::ChangeTransform { output, transform });
        },
        HeadChange::Scale { fixed } => {
            let scale = Scale::Fractional { fixed };
            outputs[i].scale = scale;
            actions.push(ConfigAction::ChangeScale { output, scale });
        },
    }
    assert(output_views(outputs@) =~= before.update(i as int, changed(was, named.change)));
    assert(action_views(actions@) =~= action_views(old(actions)@) + change_actions(
        was,
        named.change,
    ));
}

impl BlueState {
    /// Applies a configuration. Its changes are made in the order in which they were
    /// asked for, and it is gone afterwards. The client is always told that it
    /// succeeded.
    pub fn apply_configuration(&mut self, config: u64) -> (actions: Vec<ConfigAction>)
        ensures
            ({
                let changes = changes_of(
                    pending_changes(old(self).output_management_state.pending@),
                    config,
                );
                let outputs = output_views(old(self).outputs@);
                &&& action_views(actions@) == actions_for(outputs, changes).push(
                    ConfigActionView::Succeeded,
                )
                &&& output_views(final(self).outputs@) == outputs_after(outputs, changes)
            }),
            pending_changes(final(self).output_management_state.pending@) == pending_changes(
                old(self).output_management_state.pending@,
            ).remove(config),
            *final(self) == (BlueState {
                outputs: final(self).outputs,
                output_management_state: OutputManagementState {
                    pending: final(self).output_management_state.pending,
                    ..old(self).output_management_state
                },
                ..*old(self)
            }),
    {
        let ghost before = output_views(self.outputs@);
        let ghost pending = pending_changes(self.output_management_state.pending@);
        let mut actions: Vec<ConfigAction> = Vec::new();
        let removed = self.output_management_state.pending.remove(&config);
        assert(pending_changes(self.output_management_state.pending@) =~= pending.remove(config));
        match removed {
            Some(found) => {
                let ghost changes = changes_view(found.changes@);
                assert(changes == changes_of(pending, config));
                assert(action_views(actions@) =~= actions_for(before, changes.take(0)));
                for k in 0..found.changes.len()
                    invariant
                        changes == changes_view(found.changes@),
                        action_views(actions@) == actions_for(before, changes.take(k as int)),
                        output_views(self.outputs@) == outputs_after(
                            before,
                            changes.take(k as int),
                        ),
                        pending_changes(self.output_management_state.pending@) == pending.remove(
                            config,
                        ),
                        *self == (BlueState {
                            outputs: self.outputs,
                            output_management_state: OutputManagementState {
                                pending: self.output_management_state.pending,
                                ..old(self).output_management_state
                            },
                            ..*old(self)
                        }),
                {
                    assert(changes.take(k + 1).drop_last() =~= changes.take(k as int));
                    assert(changes.take(k + 1).last() == changes[k as int]);
                    apply_change(&mut self.outputs, &mut actions, &found.changes[k]);
                    assert(action_views(actions@) =~= actions_for(before, changes.take(k + 1)));
                }
                assert(changes.take(found.changes@.len() as int) =~= changes);
            },
            None => {
                assert(action_views(actions@) =~= actions_for(before, changes_of(pending, config)));
            },
        }
        let ghost made = action_views(actions@);
        actions.push(ConfigAction::Succeeded);
        assert(action_views(actions@) =~= made.push(ConfigActionView::Succeeded));
        actions
    }

    /// Takes in a request on a configuration.
    pub fn handle_configuration_request(&mut self, config: u64, request: ConfigRequest) -> (reply:
        ConfigReply)
        ensures
            ({
                let heads = heads_view(old(self).output_management_state.heads@);
                let pending = pending_changes(old(self).output_management_state.pending@);
                let outputs = output_views(old(self).outputs@);
                let pending_now = pending_changes(final(self).output_management_state.pending@);
                let outputs_now = output_views(final(self).outputs@);
                match request {
                    ConfigRequest::EnableHead { head } => {
                        &&& reply.head matches Some(data) && data.output_name@ == head_name(
                            heads,
                            head,
                        ) && data.config_id == config
                        &&& action_views(reply.actions@) == Seq::<ConfigActionView>::empty()
                        &&& *final(self) == *old(self)
                    },
                    ConfigRequest::DisableHead { head } => {
                        &&& reply.head is None
                        &&& action_views(reply.actions@) == Seq::<ConfigActionView>::empty()
                        &&& pending_now == with_change(
                            pending,
                            config,
                            head_name(heads, head),
                            HeadChange::Disable,
                        )
                        &&& outputs_now == outputs
                    },
                    ConfigRequest::Apply => {
                        &&& reply.head is None
                        &&& action_views(reply.actions@) == actions_for(
                            outputs,
                            changes_of(pending, config),
                        ).push(ConfigActionView::Succeeded)
                        &&& pending_now == pending.remove(config)
                        &&& outputs_now == outputs_after(outputs, changes_of(pending, config))
                    },
                    ConfigRequest::Destroy => {
                        &&& reply.head is None
                        &&& action_views(reply.actions@) == Seq::<ConfigActionView>::empty()
                        &&& pending_now == pending.remove(config)
                        &&& outputs_now == outputs
                    },
                    ConfigRequest::Other => {
                        &&& reply.head is None
                        &&& action_views(reply.actions@) == Seq::<ConfigActionView>::empty()
                        &&& *final(self) == *old(self)
                    },
                }
            }),
            reply.head is Some <==> request is EnableHead,
            reply.actions@.len() > 0 <==> request is Apply,
            request is Apply ==> reply.actions@.last()@ == ConfigActionView::Succeeded,
            request is Apply || request is Destroy ==> changes_of(
                pending_changes(final(self).output_management_state.pending@),
                config,
            ).len() == 0,
            request matches ConfigRequest::DisableHead { head } ==> changes_of(
                pending_changes(final(self).output_management_state.pending@),
                config,
            ).last() == (
                head_name(heads_view(old(self).output_management_state.heads@), head),
                HeadChange::Disable,
            ),
            !(request is Apply) ==> output_views(final(self).outputs@) == output_views(
                old(self).outputs@,
            ),
            *final(self) == (BlueState {
                outputs: final(self).outputs,
                output_management_state: OutputManagementState {
                    pending: final(self).output_management_state.pending,
                    ..old(self).output_management_state
                },
                ..*old(self)
            }),
    {
        let ghost pending = pending_changes(self.output_management_state.pending@);
        let mut actions: Vec<ConfigAction> = Vec::new();
        let mut data: Option<ConfigHeadData> = None;
        assert(action_views(actions@) =~= Seq::<ConfigActionView>::empty());
        match request {
            ConfigRequest::EnableHead { head } => {
                let output_name = self.output_management_state.output_name_for_head(head);
                data = Some(ConfigHeadData { output_name, config_id: config });
            },
            ConfigRequest::DisableHead { head } => {
                let output_name = self.output_management_state.output_name_for_head(head);
                self.output_management_state.push_change(config, output_name, HeadChange::Disable);
            },
            ConfigRequest::Apply => {
                actions = self.apply_configuration(config);
                assert(action_views(actions@).len() == actions@.len());
                assert(action_views(actions@).last() == actions@.last()@);
            },
            ConfigRequest::Destroy => {
                self.output_management_state.pending.remove(&config);
                assert(pending_changes(self.output_management_state.pending@) =~= pending.remove(
                    config,
                ));
            },
            ConfigRequest::Other => {},
        }
        ConfigReply { head: data, actions }
    }

    /// Takes in a request on a configuration head. It only notes the change; nothing
    /// is applied yet.
    pub fn handle_configuration_head_request(
        &mut self,
        data: &ConfigHeadData,
        request: ConfigHeadRequest,
    )
        ensures
            pending_changes(final(self).output_management_state.pending@) == match requested_change(
                request,
            ) {
                Some(change) => with_change(
                    pending_changes(old(self).output_management_state.pending@),
                    data.config_id,
                    data.output_name@,
                    change,
                ),
                None => pending_changes(old(self).output_management_state.pending@),
            },
            *final(self) == (BlueState {
                output_management_state: OutputManagementState {
                    pending: final(self).output_management_state.pending,
                    ..old(self).output_management_state
                },
                ..*old(self)
            }),
    {
        let change = match request {
            ConfigHeadRequest::SetMode { mode } => match mode {
                Some(m) => HeadChange::Mode {
                    w: m.width,
                    h: m.height,
                    refresh_mhz: m.refresh_mhz,
                },
                None => {
                    return;
                },
            },
            ConfigHeadRequest::SetCustomMode { width, height, refresh } => HeadChange::Mode {
                w: width,
                h: height,
                refresh_mhz: refresh,
            },
            ConfigHeadRequest::SetPosition { x, y } => HeadChange::Position { x, y },
            ConfigHeadRequest::SetTransform { transform } => HeadChange::Transform {
                transform: requested_transform(transform),
            },
            ConfigHeadRequest::SetScale { fixed } => HeadChange::Scale { fixed },
            _ => {
                return;
            },
        };
        self.output_management_state.push_change(data.config_id, data.output_name.clone(), change);
    }

    /// What the mode objects of an output stand for, in the order of its modes.
    pub fn mode_objects(&self, place: usize) -> (data: Vec<ModeData>)
        requires
            place < self.outputs@.len(),
        ensures
            data@ == self.outputs@[place as int].modes@.map_values(|m: OutputMode| mode_data(m)),
    {
        let modes = &self.outputs[place].modes;
        let mut data: Vec<ModeData> = Vec::new();
        for i in 0..modes.len()
            invariant
                data@.len() == i,
                forall|j: int|
                    0 <= j < i ==> #[trigger] data@[j] == (ModeData {
                        width: modes@[j].size.w,
                        height: modes@[j].size.h,
                        refresh_mhz: modes@[j].refresh,
                    }),
        {
            let m = modes[i];
            data.push(ModeData { width: m.size.w, height: m.size.h, refresh_mhz: m.refresh });
        }
        data
    }

    /// Describes an output to a manager, and remembers the head that stands for it.
    /// `head` is the new head, if it could be created, and `objects` are the new
    /// mode objects, one for each mode of the output where it could be created.
    pub fn advertise_head(
        &mut self,
        manager: u64,
        place: usize,
        head: Option<u64>,
        objects: &Vec<Option<u64>>,
    ) -> (events: Vec<HeadEvent>)
        requires
            place < old(self).outputs@.len(),
            objects@.len() == old(self).outputs@[place as int].modes@.len(),
        ensures
            match head {
                Some(h) => {
                    let output = old(self).outputs@[place as int]@;
                    &&& head_event_views(events@) == head_events(manager, h, output, objects@)
                    &&& heads_view(final(self).output_management_state.heads@) == with_head(
                        heads_view(old(self).output_management_state.heads@),
                        output.name,
                        AdvertisedHead { manager, head: h },
                    )
                },
                None => events@.len() == 0 && *final(self) == *old(self),
            },
            *final(self) == (BlueState {
                output_management_state: OutputManagementState {
                    heads: final(self).output_management_state.heads,
                    ..old(self).output_management_state
                },
                ..*old(self)
            }),
    {
        let mut events: Vec<HeadEvent> = Vec::new();
        let h: u64 = match head {
            Some(h) => h,
            None => {
                return events;
            },
        };
        let output = &self.outputs[place];
        let ghost o = output@;
        events.push(HeadEvent::Head { manager, head: h });
        events.push(HeadEvent::Name { head: h, name: output.name.clone() });
        events.push(
            HeadEvent::Description {
                head: h,
                description: output.make.clone().concat(" ").concat(output.model.as_str()),
            },
        );
        events.push(HeadEvent::PhysicalSize { head: h, size: output.physical_size });
        events.push(HeadEvent::Make { head: h, make: output.make.clone() });
        events.push(HeadEvent::Model { head: h, model: output.model.clone() });
        let ghost intro = head_event_views(events@);
        assert(intro =~= seq![
            HeadEventView::Head { manager, head: h },
            HeadEventView::Name { head: h, name: o.name },
            HeadEventView::Description { head: h, description: o.make + " "@ + o.model },
            HeadEventView::PhysicalSize { head: h, size: o.physical_size },
            HeadEventView::Make { head: h, make: o.make },
            HeadEventView::Model { head: h, model: o.model },
        ]);
        for k in 0..output.modes.len()
            invariant
                o == output@,
                objects@.len() == output.modes@.len(),
                head_event_views(events@) == intro + modes_events(h, o, objects@, k as int),
        {
            let ghost sent = head_event_views(events@);
            let mode = output.modes[k];
            match objects[k] {
                Some(id) => {
                    events.push(HeadEvent::ModeSize { mode: id, size: mode.size });
                    events.push(HeadEvent::ModeRefresh { mode: id, refresh: mode.refresh });
                    let is_preferred = match output.preferred_mode {
                        Some(preferred) => preferred == mode,
                        None => false,
                    };
                    if is_preferred {
                        events.push(HeadEvent::ModePreferred { mode: id });
                    }
                    events.push(HeadEvent::Mode { head: h, mode: id });
                    let is_current = match output.current_mode {
                        Some(current) => current == mode,
                        None => false,
                    };
                    if is_current {
                        events.push(HeadEvent::CurrentMode { head: h, mode: id });
                    }
                },
                None => {},
            }
            assert(head_event_views(events@) =~= sent + mode_events(
                h,
                o.modes[k as int],
                objects@[k as int],
                o,
            ));
            assert(head_event_views(events@) =~= intro + modes_events(h, o, objects@, k + 1));
        }
        let ghost modes_sent = head_event_views(events@);
        events.push(HeadEvent::Position { head: h, location: output.location });
        events.push(
            HeadEvent::Transform { head: h, transform: protocol_transform(output.transform) },
        );
        events.push(HeadEvent::Scale { head: h, scale: output.scale });
        events.push(HeadEvent::Enabled { head: h });
        assert(head_event_views(events@) =~= modes_sent + seq![
            HeadEventView::Position { head: h, location: o.location },
            HeadEventView::Transform { head: h, transform: transform_to_wl(o.transform) },
            HeadEventView::Scale { head: h, scale: o.scale },
            HeadEventView::Enabled { head: h },
        ]);
        let name = output.name.clone();
        self.output_management_state.add_head(&name, AdvertisedHead { manager, head: h });
        events
    }

    /// A manager was bound, and every output was described to it: ends the batch, and
    /// keeps the manager.
    pub fn finish_output_manager_bind(&mut self, manager: u64) -> (done: DoneEvent)
        requires
            old(self).output_management_state.serial < u32::MAX,
        ensures
            done == (DoneEvent {
                manager,
                serial: (old(self).output_management_state.serial + 1) as u32,
            }),
            final(self).output_management_state.serial == old(self).output_management_state.serial
                + 1,
            final(self).output_management_state.managers@ == old(
                self,
            ).output_management_state.managers@.push(manager),
            done.manager == manager,
            done.serial == final(self).output_management_state.serial,
            done.serial > old(self).output_management_state.serial,
            final(self).output_management_state.managers@.last() == manager,
            *final(self) == (BlueState {
                output_management_state: OutputManagementState {
                    serial: final(self).output_management_state.serial,
                    managers: final(self).output_management_state.managers,
                    ..old(self).output_management_state
                },
                ..*old(self)
            }),
    {
        let serial: u32 = self.output_management_state.serial + 1;
        self.output_management_state.serial = serial;
        self.output_management_state.managers.push(manager);
        DoneEvent { manager, serial }
    }

    /// The outputs that a manager has no head for. A head has to be created for each
    /// before the managers are told of a change.
    pub fn missing_heads(&self) -> (missing: Vec<MissingHead>)
        ensures
            missing@ == missing_for_all(
                heads_view(self.output_management_state.heads@),
                output_views(self.outputs@),
                self.output_management_state.managers@,
            ),
    {
        let ghost heads = heads_view(self.output_management_state.heads@);
        let ghost outputs = output_views(self.outputs@);
        let managers = &self.output_management_state.managers;
        let mut missing: Vec<MissingHead> = Vec::new();
        assert(missing@ =~= missing_for_all(heads, outputs, managers@.take(0)));
        for i in 0..managers.len()
            invariant
                managers@ == self.output_management_state.managers@,
                heads == heads_view(self.output_management_state.heads@),
                outputs == output_views(self.outputs@),
                missing@ == missing_for_all(heads, outputs, managers@.take(i as int)),
        {
            let manager: u64 = managers[i];
            let ghost before = missing@;
            assert(before =~= before + missing_for(heads, outputs, manager, 0));
            for k in 0..self.outputs.len()
                invariant
                    heads == heads_view(self.output_management_state.heads@),
                    outputs == output_views(self.outputs@),
                    missing@ == before + missing_for(heads, outputs, manager, k as int),
            {
                if !self.output_management_state.serves_output(&self.outputs[k].name, manager) {
                    missing.push(MissingHead { manager, place: k });
                }
                assert(missing@ =~= before + missing_for(heads, outputs, manager, k + 1));
            }
            assert(managers@.take(i + 1).drop_last() =~= managers@.take(i as int));
        }
        assert(managers@.take(managers@.len() as int) =~= managers@);
        missing
    }

    /// Forgets the heads whose outputs are gone, and adds what their clients are told.
    fn finish_stale_heads(&mut self, events: &mut Vec<HeadEvent>)
        ensures
            head_event_views(final(events)@) == head_event_views(old(events)@) + finished_events(
                output_views(old(self).outputs@),
                heads_view(old(self).output_management_state.heads@),
            ),
            heads_view(final(self).output_management_state.heads@) == heads_view(
                old(self).output_management_state.heads@,
            ).filter(is_current(output_views(old(self).outputs@))),
            *final(self) == (BlueState {
                output_management_state: OutputManagementState {
                    heads: final(self).output_management_state.heads,
                    ..old(self).output_management_state
                },
                ..*old(self)
            }),
    {
        let ghost all = heads_view(self.output_management_state.heads@);
        let ghost outputs = output_views(self.outputs@);
        let ghost p = is_current(outputs);
        let ghost sent = head_event_views(events@);
        let count: usize = self.output_management_state.heads.len();
        let mut kept: Vec<AdvertisedOutput> = Vec::new();
        proof {
            reveal(Seq::filter);
            assert(heads_view(kept@) =~= all.take(0).filter(p));
            assert(sent =~= sent + finished_events(outputs, all.take(0)));
        }
        for i in 0..count
            invariant
                p == is_current(outputs),
                count == all.len(),
                outputs == output_views(self.outputs@),
                heads_view(self.output_management_state.heads@) == all.skip(i as int),
                heads_view(kept@) == all.take(i as int).filter(p),
                head_event_views(events@) == sent + finished_events(outputs, all.take(i as int)),
                *self == (BlueState {
                    output_management_state: OutputManagementState {
                        heads: self.output_management_state.heads,
                        ..old(self).output_management_state
                    },
                    ..*old(self)
                }),
        {
            proof {
                crate::search::filter_step(all, p, i as int);
            }
            let ghost views = heads_view(self.output_management_state.heads@);
            let ghost before = heads_view(kept@);
            let ghost told = head_event_views(events@);
            assert(self.output_management_state.heads@.len() == views.len());
            let entry = self.output_management_state.heads.remove(0);
            assert((entry.name@, entry.heads@) == views[0]);
            assert(heads_view(self.output_management_state.heads@) =~= views.drop_first());
            assert(views.drop_first() =~= all.skip(i + 1));
            assert(all.take(i + 1).drop_last() =~= all.take(i as int));
            assert(all.take(i + 1).last() == all[i as int]);
            if find_output(&self.outputs, entry.name.as_str()).is_some() {
                kept.push(entry);
                assert(heads_view(kept@) =~= before.push(all[i as int]));
                assert(told =~= sent + finished_events(outputs, all.take(i + 1)));
            } else {
                push_finished(events, &entry.heads);
                assert(head_event_views(events@) =~= sent + finished_events(
                    outputs,
                    all.take(i + 1),
                ));
            }
        }
        assert(all.take(count as int) =~= all);
        self.output_management_state.heads = kept;
    }

    /// An output was added or removed: every manager sees it. The heads of outputs that
    /// are gone are finished, the new heads are described, and a new serial ends the
    /// batch. `created` is what was created for [`BlueState::missing_heads`], in order.
    pub fn notify_output_topology_changed(&mut self, created: &Vec<CreatedHead>) -> (events: Vec<
        HeadEvent,
    >)
        requires
            old(self).output_management_state.serial < u32::MAX,
            answers(
                missing_for_all(
                    heads_view(old(self).output_management_state.heads@),
                    output_views(old(self).outputs@),
                    old(self).output_management_state.managers@,
                ),
                created@,
                output_views(old(self).outputs@),
            ),
        ensures
            ({
                let outputs = output_views(old(self).outputs@);
                let heads = heads_view(old(self).output_management_state.heads@);
                &&& head_event_views(events@) == finished_events(outputs, heads) + announced(
                    outputs,
                    created@,
                ) + done_events(
                    old(self).output_management_state.managers@,
                    final(self).output_management_state.serial,
                )
                &&& heads_view(final(self).output_management_state.heads@) == with_created(
                    heads.filter(is_current(outputs)),
                    outputs,
                    created@,
                )
            }),
            final(self).output_management_state.serial == old(self).output_management_state.serial
                + 1,
            *final(self) == (BlueState {
                output_management_state: OutputManagementState {
                    heads: final(self).output_management_state.heads,
                    serial: final(self).output_management_state.serial,
                    ..old(self).output_management_state
                },
                ..*old(self)
            }),
    {
        let ghost outputs = output_views(self.outputs@);
        let ghost heads = heads_view(self.output_management_state.heads@);
        let ghost current = heads.filter(is_current(outputs));
        let mut events: Vec<HeadEvent> = Vec::new();
        self.finish_stale_heads(&mut events);
        let ghost finished = finished_events(outputs, heads);
        assert(head_event_views(events@) =~= finished + announced(outputs, created@.take(0)));
        for i in 0..created.len()
            invariant
                outputs == output_views(self.outputs@),
                forall|k: int|
                    0 <= k < created@.len() ==> (#[trigger] created@[k]).place < outputs.len()
                        && created@[k].objects@.len() == outputs[created@[k].place as int].modes.len(),
                head_event_views(events@) == finished + announced(outputs, created@.take(i as int)),
                heads_view(self.output_management_state.heads@) == with_created(
                    current,
                    outputs,
                    created@.take(i as int),
                ),
                *self == (BlueState {
                    output_management_state: OutputManagementState {
                        heads: self.output_management_state.heads,
                        ..old(self).output_management_state
                    },
                    ..*old(self)
                }),
        {
            let ghost told = head_event_views(events@);
            let ghost c = created@[i as int];
            assert(created@.take(i + 1).drop_last() =~= created@.take(i as int));
            assert(c.place < outputs.len());
            assert(outputs[c.place as int] == self.outputs@[c.place as int]@);
            let mut new = self.advertise_head(
                created[i].manager,
                created[i].place,
                created[i].head,
                &created[i].objects,
            );
            let ghost described = head_event_views(new@);
            events.append(&mut new);
            assert(head_event_views(events@) =~= told + described);
            assert(head_event_views(events@) =~= finished + announced(
                outputs,
                created@.take(i + 1),
            ));
        }
        assert(created@.take(created@.len() as int) =~= created@);
        let serial: u32 = self.output_management_state.serial + 1;
        self.output_management_state.serial = serial;
        let ghost described = head_event_views(events@);
        let managers = &self.output_management_state.managers;
        assert(described =~= described + done_events(managers@.take(0), serial));
        for i in 0..managers.len()
            invariant
                head_event_views(events@) == described + done_events(
                    managers@.take(i as int),
                    serial,
                ),
        {
            let ghost told = head_event_views(events@);
            events.push(HeadEvent::Done { event: DoneEvent { manager: managers[i], serial } });
            assert(head_event_views(events@) =~= told.push(
                HeadEventView::Done { event: DoneEvent { manager: managers@[i as int], serial } },
            ));
            assert(done_events(managers@.take(i + 1), serial) =~= done_events(
                managers@.take(i as int),
                serial,
            ).push(HeadEventView::Done { event: DoneEvent { manager: managers@[i as int], serial } }));
        }
        assert(managers@.take(managers@.len() as int) =~= managers@);
        events
    }
}

fn push_finished(events: &mut Vec<HeadEvent>, heads: &Vec<AdvertisedHead>)
    ensures
        head_event_views(final(events)@) == head_event_views(old(events)@) + heads@.map_values(
            |h: AdvertisedHead| HeadEventView::Finished { head: h.head },
        ),
{
    let ghost before = head_event_views(events@);
    let ghost f = |h: AdvertisedHead| HeadEventView::Finished { head: h.head };
    assert(before =~= before + heads@.take(0).map_values(f));
    for i in 0..heads.len()
        invariant
            f == (|h: AdvertisedHead| HeadEventView::Finished { head: h.head }),
            head_event_views(events@) == before + heads@.take(i as int).map_values(f),
    {
        let ghost told = head_event_views(events@);
        events.push(HeadEvent::Finished { head: heads[i].head });
        assert(head_event_views(events@) =~= told.push(f(heads@[i as int])));
        assert(heads@.take(i + 1).map_values(f) =~= heads@.take(i as int).map_values(f).push(
            f(heads@[i as int]),
        ));
    }
    assert(heads@.take(heads@.len() as int) =~= heads@);
}

/// Reading a transform from the protocol and writing it to the protocol undo each
/// other.
pub proof fn transforms_round_trip(t: OutputTransform, wl: wl_output::Transform)
    ensures
        transform_from_wl(WEnum::Value(transform_to_wl(t))) == t,
        transform_to_wl(transform_from_wl(WEnum::Value(wl))) == wl,
{
}

/// A mode object that a client picks leads to the mode that it was made for.
pub proof fn a_picked_mode_becomes_current(output: OutputView, mode: OutputMode)
    ensures
        ({
            let picked = mode_data(mode);
            &&& picked.width == mode.size.w && picked.height == mode.size.h && picked.refresh_mhz
                == mode.refresh
            &&& requested_change(ConfigHeadRequest::SetMode { mode: Some(picked) }) is Some
            &&& changed(
                output,
                requested_change(ConfigHeadRequest::SetMode { mode: Some(picked) })->0,
            ).current_mode == Some(mode)
        }),
{
}

/// A configuration takes effect once: applying it again, or destroying it first,
/// changes no output.
pub proof fn a_configuration_applies_once(
    outputs: Seq<OutputView>,
    pending: Map<u64, Seq<(Seq<char>, HeadChange)>>,
    config: u64,
)
    ensures
        actions_for(outputs, changes_of(pending.remove(config), config)) == Seq::<
            ConfigActionView,
        >::empty(),
        outputs_after(outputs, changes_of(pending.remove(config), config)) == outputs,
{
}

/// A configuration touches neither the changes nor the life of another one.
pub proof fn configurations_are_independent(
    pending: Map<u64, Seq<(Seq<char>, HeadChange)>>,
    config: u64,
    other: u64,
    name: Seq<char>,
    change: HeadChange,
)
    requires
        other != config,
    ensures
        changes_of(with_change(pending, config, name, change), other) == changes_of(pending, other),
        changes_of(pending.remove(config), other) == changes_of(pending, other),
        changes_of(with_change(pending, config, name, change), config) == changes_of(
            pending,
            config,
        ).push((name, change)),
{
}

/// Configuring changes how outputs are set up, but not which outputs there are,
/// nor what they are.
pub proof fn configuring_keeps_the_outputs(
    outputs: Seq<OutputView>,
    changes: Seq<(Seq<char>, HeadChange)>,
)
    ensures
        outputs_after(outputs, changes).len() == outputs.len(),
        forall|i: int|
            0 <= i < outputs.len() ==> {
                let now = #[trigger] outputs_after(outputs, changes)[i];
                &&& now.id == outputs[i].id
                &&& now.name == outputs[i].name
                &&& now.make == outputs[i].make
                &&& now.model == outputs[i].model
                &&& now.physical_size == outputs[i].physical_size
                &&& now.preferred_mode == outputs[i].preferred_mode
            },
    decreases changes.len(),
{
    if changes.len() > 0 {
        configuring_keeps_the_outputs(outputs, changes.drop_last());
        crate::search::first_index_meaning(
            outputs_after(outputs, changes.drop_last()),
            crate::output::is_named(changes.last().0),
        );
    }
}

/// Configuring keeps every output valid: no mode is listed twice, and the current
/// mode is listed.
pub proof fn configuring_keeps_outputs_valid(
    outputs: Seq<OutputView>,
    changes: Seq<(Seq<char>, HeadChange)>,
)
    requires
        forall|i: int| 0 <= i < outputs.len() ==> (#[trigger] outputs[i]).valid(),
    ensures
        forall|i: int|
            0 <= i < outputs_after(outputs, changes).len() ==> (#[trigger] outputs_after(
                outputs,
                changes,
            )[i]).valid(),
    decreases changes.len(),
{
    if changes.len() > 0 {
        configuring_keeps_outputs_valid(outputs, changes.drop_last());
        let before = outputs_after(outputs, changes.drop_last());
        let (name, change) = changes.last();
        crate::search::first_index_meaning(before, crate::output::is_named(name));
        match output_index(before, name) {
            Some(i) => {
                assert(before[i].valid());
                match change {
                    HeadChange::Mode { w, h, refresh_mhz } => {
                        crate::output::modes_stay_distinct(
                            before[i].modes,
                            mode_of(w, h, refresh_mhz),
                        );
                    },
                    _ => {},
                }
                assert(changed(before[i], change).valid());
            },
            None => {},
        }
    }
}

/// Changes for outputs that do not exist are passed over.
pub proof fn unknown_outputs_are_passed_over(
    outputs: Seq<OutputView>,
    changes: Seq<(Seq<char>, HeadChange)>,
)
    requires
        forall|k: int|
            0 <= k < changes.len() ==> output_index(outputs, (#[trigger] changes[k]).0) is None,
    ensures
        outputs_after(outputs, changes) == outputs,
        actions_for(outputs, changes) == Seq::<ConfigActionView>::empty(),
    decreases changes.len(),
{
    if changes.len() > 0 {
        let fewer = changes.drop_last();
        assert forall|k: int| 0 <= k < fewer.len() implies output_index(
            outputs,
            (#[trigger] fewer[k]).0,
        ) is None by {
            assert(fewer[k] == changes[k]);
        }
        unknown_outputs_are_passed_over(outputs, fewer);
        assert(output_index(outputs, changes[changes.len() - 1].0) is None);
        assert(actions_for(outputs, changes) =~= Seq::<ConfigActionView>::empty());
    }
}

/// Advertising a head gives no output a second entry.
pub proof fn an_output_has_one_entry(
    heads: Seq<(Seq<char>, Seq<AdvertisedHead>)>,
    name: Seq<char>,
    new: AdvertisedHead,
)
    requires
        entries_are_distinct(heads),
    ensures
        entries_are_distinct(with_head(heads, name, new)),
{
    let now = with_head(heads, name, new);
    crate::search::first_index_meaning(heads, is_entry_of(name));
    assert forall|i: int, j: int| 0 <= i < j < now.len() implies now[i].0 != now[j].0 by {
        if j == heads.len() {
            assert(!is_entry_of(name)(heads[i]));
        }
    }
}

proof fn kept_entries_are_distinct(
    heads: Seq<(Seq<char>, Seq<AdvertisedHead>)>,
    p: spec_fn((Seq<char>, Seq<AdvertisedHead>)) -> bool,
)
    requires
        entries_are_distinct(heads),
    ensures
        entries_are_distinct(heads.filter(p)),
    decreases heads.len(),
{
    reveal(Seq::filter);
    if heads.len() > 0 {
        let rest = heads.drop_last();
        let kept = rest.filter(p);
        kept_entries_are_distinct(rest, p);
        assert forall|i: int| 0 <= i < kept.len() implies (#[trigger] kept[i]).0
            != heads.last().0 by {
            assert(kept.contains(kept[i]));
            crate::search::filter_membership(rest, p, kept[i]);
            let k = choose|k: int| 0 <= k < rest.len() && rest[k] == kept[i];
            assert(heads[k] == kept[i]);
        }
    }
}

proof fn created_entries_are_distinct(
    heads: Seq<(Seq<char>, Seq<AdvertisedHead>)>,
    outputs: Seq<OutputView>,
    created: Seq<CreatedHead>,
)
    requires
        entries_are_distinct(heads),
    ensures
        entries_are_distinct(with_created(heads, outputs, created)),
    decreases created.len(),
{
    if created.len() > 0 {
        let c = created.last();
        created_entries_are_distinct(heads, outputs, created.drop_last());
        if c.head is Some {
            an_output_has_one_entry(
                with_created(heads, outputs, created.drop_last()),
                outputs[c.place as int].name,
                AdvertisedHead { manager: c.manager, head: c.head->0 },
            );
        }
    }
}

/// Telling the managers of a change gives no output a second entry.
pub proof fn a_topology_change_keeps_one_entry(
    heads: Seq<(Seq<char>, Seq<AdvertisedHead>)>,
    outputs: Seq<OutputView>,
    created: Seq<CreatedHead>,
)
    requires
        entries_are_distinct(heads),
    ensures
        entries_are_distinct(
            with_created(heads.filter(is_current(outputs)), outputs, created),
        ),
{
    kept_entries_are_distinct(heads, is_current(outputs));
    created_entries_are_distinct(heads.filter(is_current(outputs)), outputs, created);
}

/// A new head leads back to the output that it was advertised for, the other heads
/// lead where they led before, and no output gets a second entry.
pub proof fn an_advertised_head_is_found(
    heads: Seq<(Seq<char>, Seq<AdvertisedHead>)>,
    name: Seq<char>,
    new: AdvertisedHead,
    other: u64,
)
    requires
        entries_are_distinct(heads),
        first_index(heads, lists_head(new.head)) is None,
        other != new.head,
    ensures
        entries_are_distinct(with_head(heads, name, new)),
        head_name(with_head(heads, name, new), new.head) == name,
        head_name(with_head(heads, name, new), other) == head_name(heads, other),
{
    let head = new.head;
    let now = with_head(heads, name, new);
    crate::search::first_index_meaning(heads, is_entry_of(name));
    crate::search::first_index_meaning(heads, lists_head(head));
    crate::search::first_index_meaning(heads, lists_head(other));
    let at = match first_index(heads, is_entry_of(name)) {
        Some(i) => i,
        None => heads.len() as int,
    };
    let list = now[at].1;
    assert(list[list.len() - 1].head == head);
    assert(holds_head(list, head));
    assert forall|j: int| 0 <= j < at implies !lists_head(head)(#[trigger] now[j]) by {
        assert(now[j] == heads[j]);
    }
    crate::search::first_index_at(now, lists_head(head), at);
    assert(lists_head(other)(now[at]) <==> at < heads.len() && lists_head(other)(heads[at])) by {
        if at < heads.len() {
            let old_list = heads[at].1;
            if holds_head(list, other) {
                let k = choose|k: int| 0 <= k < list.len() && (#[trigger] list[k]).head == other;
                assert(old_list[k].head == other);
            }
            if holds_head(old_list, other) {
                let k = choose|k: int|
                    0 <= k < old_list.len() && (#[trigger] old_list[k]).head == other;
                assert(list[k].head == other);
            }
        }
    }
    match first_index(heads, lists_head(other)) {
        Some(i) => {
            assert forall|j: int| 0 <= j < i implies !lists_head(other)(#[trigger] now[j]) by {
                assert(!lists_head(other)(heads[j]));
            }
            crate::search::first_index_at(now, lists_head(other), i);
        },
        None => {
            assert forall|j: int| 0 <= j < now.len() implies !lists_head(other)(
                #[trigger] now[j],
            ) by {
                if j < heads.len() {
                    assert(!lists_head(other)(heads[j]));
                }
            }
            crate::search::first_index_none(now, lists_head(other));
        },
    }
    an_output_has_one_entry(heads, name, new);
}

/// Exactly the objects of the preferred mode are marked as preferred.
pub proof fn only_the_preferred_mode_is_marked(
    head: u64,
    output: OutputView,
    objects: Seq<Option<u64>>,
    n: int,
    object: u64,
)
    requires
        0 <= n <= output.modes.len(),
        objects.len() == output.modes.len(),
    ensures
        modes_events(head, output, objects, n).contains(
            HeadEventView::ModePreferred { mode: object },
        ) <==> exists|k: int|
            0 <= k < n && (#[trigger] objects[k]) == Some(object) && output.preferred_mode == Some(
                output.modes[k],
            ),
    decreases n,
{
    let marked = HeadEventView::ModePreferred { mode: object };
    let all = modes_events(head, output, objects, n);
    if n > 0 {
        only_the_preferred_mode_is_marked(head, output, objects, n - 1, object);
        let before = modes_events(head, output, objects, n - 1);
        let last = mode_events(head, output.modes[n - 1], objects[n - 1], output);
        if all.contains(marked) {
            let i = choose|i: int| 0 <= i < all.len() && all[i] == marked;
            if i < before.len() {
                assert(before[i] == marked);
            } else {
                assert(last[i - before.len()] == marked);
                assert(objects[n - 1] == Some(object));
            }
        }
        if before.contains(marked) {
            let i = choose|i: int| 0 <= i < before.len() && before[i] == marked;
            assert(all[i] == marked);
        }
        if objects[n - 1] == Some(object) && output.preferred_mode == Some(output.modes[n - 1]) {
            assert(last[2] == marked);
            assert(all[before.len() as int + 2] == marked);
        }
    }
}

proof fn new_heads_serve(
    heads: Seq<(Seq<char>, Seq<AdvertisedHead>)>,
    name: Seq<char>,
    new: AdvertisedHead,
    other_name: Seq<char>,
    other_manager: u64,
)
    ensures
        has_head_for(with_head(heads, name, new), name, new.manager),
        has_head_for(heads, other_name, other_manager) ==> has_head_for(
            with_head(heads, name, new),
            other_name,
            other_manager,
        ),
{
    let now = with_head(heads, name, new);
    crate::search::first_index_meaning(heads, is_entry_of(name));
    let at = match first_index(heads, is_entry_of(name)) {
        Some(i) => i,
        None => heads.len() as int,
    };
    let list = now[at].1;
    assert(list[list.len() - 1].manager == new.manager);
    assert(serves(now[at], name, new.manager));
    if has_head_for(heads, other_name, other_manager) {
        let i = choose|i: int|
            0 <= i < heads.len() && serves(#[trigger] heads[i], other_name, other_manager);
        if i == at {
            let k = choose|k: int|
                0 <= k < heads[i].1.len() && (#[trigger] heads[i].1[k]).manager == other_manager;
            assert(list[k].manager == other_manager);
        }
        assert(serves(now[i], other_name, other_manager));
    }
}

proof fn created_heads_serve(
    heads: Seq<(Seq<char>, Seq<AdvertisedHead>)>,
    outputs: Seq<OutputView>,
    created: Seq<CreatedHead>,
    name: Seq<char>,
    manager: u64,
)
    ensures
        has_head_for(heads, name, manager) || (exists|i: int|
            0 <= i < created.len() && (#[trigger] created[i]).manager == manager
                && outputs[created[i].place as int].name == name && created[i].head is Some)
            ==> has_head_for(with_created(heads, outputs, created), name, manager),
    decreases created.len(),
{
    if created.len() > 0 {
        let fewer = created.drop_last();
        let c = created.last();
        let before = with_created(heads, outputs, fewer);
        created_heads_serve(heads, outputs, fewer, name, manager);
        if c.head is Some {
            new_heads_serve(
                before,
                outputs[c.place as int].name,
                AdvertisedHead { manager: c.manager, head: c.head->0 },
                name,
                manager,
            );
        }
        if exists|i: int|
            0 <= i < created.len() && (#[trigger] created[i]).manager == manager
                && outputs[created[i].place as int].name == name && created[i].head is Some {
            let i = choose|i: int|
                0 <= i < created.len() && (#[trigger] created[i]).manager == manager
                    && outputs[created[i].place as int].name == name && created[i].head is Some;
            if i < fewer.len() {
                assert(fewer[i] == created[i]);
            }
        }
    }
}

proof fn created_heads_are_current(
    heads: Seq<(Seq<char>, Seq<AdvertisedHead>)>,
    outputs: Seq<OutputView>,
    created: Seq<CreatedHead>,
    entry: int,
)
    requires
        forall|i: int| 0 <= i < heads.len() ==> is_current(outputs)(#[trigger] heads[i]),
        forall|i: int| 0 <= i < created.len() ==> (#[trigger] created[i]).place < outputs.len(),
        0 <= entry < with_created(heads, outputs, created).len(),
    ensures
        is_current(outputs)(with_created(heads, outputs, created)[entry]),
    decreases created.len(),
{
    if created.len() > 0 {
        let fewer = created.drop_last();
        let c = created.last();
        let before = with_created(heads, outputs, fewer);
        assert(created[created.len() - 1].place < outputs.len());
        assert forall|i: int| 0 <= i < fewer.len() implies (#[trigger] fewer[i]).place
            < outputs.len() by {
            assert(fewer[i] == created[i]);
        }
        let name = outputs[c.place as int].name;
        crate::search::first_index_meaning(before, is_entry_of(name));
        crate::search::first_index_meaning(outputs, crate::output::is_named(name));
        assert(crate::output::is_named(name)(outputs[c.place as int]));
        if entry < before.len() {
            created_heads_are_current(heads, outputs, fewer, entry);
        }
    }
}

proof fn missing_heads_are_found(
    heads: Seq<(Seq<char>, Seq<AdvertisedHead>)>,
    outputs: Seq<OutputView>,
    manager: u64,
    n: int,
    place: int,
) -> (at: int)
    requires
        0 <= place < n <= outputs.len() <= usize::MAX,
        !has_head_for(heads, outputs[place].name, manager),
    ensures
        0 <= at < missing_for(heads, outputs, manager, n).len(),
        missing_for(heads, outputs, manager, n)[at] == (MissingHead {
            manager,
            place: place as usize,
        }),
    decreases n,
{
    let before = missing_for(heads, outputs, manager, n - 1);
    if place == n - 1 {
        before.len() as int
    } else {
        missing_heads_are_found(heads, outputs, manager, n - 1, place)
    }
}

proof fn heads_missing_for_some_are_found(
    heads: Seq<(Seq<char>, Seq<AdvertisedHead>)>,
    outputs: Seq<OutputView>,
    managers: Seq<u64>,
    m: int,
    place: int,
) -> (at: int)
    requires
        0 <= m < managers.len(),
        0 <= place < outputs.len() <= usize::MAX,
        !has_head_for(heads, outputs[place].name, managers[m]),
    ensures
        0 <= at < missing_for_all(heads, outputs, managers).len(),
        missing_for_all(heads, outputs, managers)[at] == (MissingHead {
            manager: managers[m],
            place: place as usize,
        }),
    decreases managers.len(),
{
    let before = missing_for_all(heads, outputs, managers.drop_last());
    if m == managers.len() - 1 {
        before.len() + missing_heads_are_found(
            heads,
            outputs,
            managers[m],
            outputs.len() as int,
            place,
        )
    } else {
        heads_missing_for_some_are_found(heads, outputs, managers.drop_last(), m, place)
    }
}

/// After a change no manager holds a stale list: every head that is left stands for an
/// output that there is, and every manager has a head for every output, where the heads
/// could be created.
pub proof fn managers_see_the_outputs_that_there_are(
    heads: Seq<(Seq<char>, Seq<AdvertisedHead>)>,
    outputs: Seq<OutputView>,
    managers: Seq<u64>,
    created: Seq<CreatedHead>,
    entry: int,
    m: int,
    place: int,
)
    requires
        outputs.len() <= usize::MAX,
        answers(missing_for_all(heads, outputs, managers), created, outputs),
    ensures
        ({
            let now = with_created(heads.filter(is_current(outputs)), outputs, created);
            &&& 0 <= entry < now.len() ==> output_index(outputs, now[entry].0) is Some
            &&& 0 <= m < managers.len() && 0 <= place < outputs.len() && (forall|i: int|
                0 <= i < created.len() && (#[trigger] created[i]).manager == managers[m]
                    && created[i].place == place ==> created[i].head is Some) ==> has_head_for(
                now,
                outputs[place].name,
                managers[m],
            )
        }),
{
    let kept = heads.filter(is_current(outputs));
    let now = with_created(kept, outputs, created);
    assert forall|i: int| 0 <= i < kept.len() implies is_current(outputs)(#[trigger] kept[i]) by {
        crate::search::filter_membership(heads, is_current(outputs), kept[i]);
        assert(kept.contains(kept[i]));
    }
    if 0 <= entry < now.len() {
        created_heads_are_current(kept, outputs, created, entry);
    }
    if 0 <= m < managers.len() && 0 <= place < outputs.len() {
        let name = outputs[place].name;
        let manager = managers[m];
        created_heads_serve(kept, outputs, created, name, manager);
        if has_head_for(heads, name, manager) {
            let i = choose|i: int|
                0 <= i < heads.len() && serves(#[trigger] heads[i], name, manager);
            crate::search::first_index_meaning(outputs, crate::output::is_named(name));
            assert(crate::output::is_named(name)(outputs[place]));
            assert(is_current(outputs)(heads[i]));
            assert(heads.contains(heads[i]));
            crate::search::filter_membership(heads, is_current(outputs), heads[i]);
            let k = choose|k: int| 0 <= k < kept.len() && kept[k] == heads[i];
            assert(serves(kept[k], name, manager));
        } else {
            let at = heads_missing_for_some_are_found(heads, outputs, managers, m, place);
            assert(created[at].manager == manager && created[at].place == place);
        }
    }
}

/// Every head of an output that is gone is finished.
pub proof fn heads_of_gone_outputs_are_finished(
    heads: Seq<(Seq<char>, Seq<AdvertisedHead>)>,
    outputs: Seq<OutputView>,
    entry: int,
    k: int,
)
    requires
        0 <= entry < heads.len(),
        0 <= k < heads[entry].1.len(),
        output_index(outputs, heads[entry].0) is None,
    ensures
        finished_events(outputs, heads).contains(
            HeadEventView::Finished { head: heads[entry].1[k].head },
        ),
    decreases heads.len(),
{
    let event = HeadEventView::Finished { head: heads[entry].1[k].head };
    let all = finished_events(outputs, heads);
    let before = finished_events(outputs, heads.drop_last());
    if entry == heads.len() - 1 {
        assert(all[before.len() + k] == event);
    } else {
        heads_of_gone_outputs_are_finished(heads.drop_last(), outputs, entry, k);
        let i = choose|i: int| 0 <= i < before.len() && before[i] == event;
        assert(all[i] == event);
    }
}

proof fn nothing_is_missing(
    heads: Seq<(Seq<char>, Seq<AdvertisedHead>)>,
    outputs: Seq<OutputView>,
    manager: u64,
    n: int,
)
    requires
        n <= outputs.len(),
        forall|k: int|
            0 <= k < outputs.len() ==> has_head_for(heads, (#[trigger] outputs[k]).name, manager),
    ensures
        missing_for(heads, outputs, manager, n) == Seq::<MissingHead>::empty(),
    decreases n,
{
    if n > 0 {
        nothing_is_missing(heads, outputs, manager, n - 1);
        assert(has_head_for(heads, outputs[n - 1].name, manager));
    }
}

/// Where the managers hold the list that there is, nothing is finished and no head is
/// missing.
pub proof fn a_current_list_stays(
    heads: Seq<(Seq<char>, Seq<AdvertisedHead>)>,
    outputs: Seq<OutputView>,
    managers: Seq<u64>,
)
    requires
        forall|i: int|
            0 <= i < heads.len() ==> output_index(outputs, (#[trigger] heads[i]).0) is Some,
        forall|m: int, k: int|
            0 <= m < managers.len() && 0 <= k < outputs.len() ==> has_head_for(
                heads,
                (#[trigger] outputs[k]).name,
                #[trigger] managers[m],
            ),
    ensures
        finished_events(outputs, heads) == Seq::<HeadEventView>::empty(),
        heads.filter(is_current(outputs)) == heads,
        missing_for_all(heads, outputs, managers) == Seq::<MissingHead>::empty(),
    decreases heads.len() + managers.len(),
{
    crate::search::filter_of_matches(heads, is_current(outputs));
    if managers.len() > 0 {
        let fewer = managers.drop_last();
        a_current_list_stays(heads, outputs, fewer);
        assert(managers[managers.len() - 1] == managers.last());
        nothing_is_missing(heads, outputs, managers.last(), outputs.len() as int);
        assert(missing_for_all(heads, outputs, managers) =~= Seq::<MissingHead>::empty());
    } else if heads.len() > 0 {
        let fewer = heads.drop_last();
        assert forall|i: int| 0 <= i < fewer.len() implies output_index(
            outputs,
            (#[trigger] fewer[i]).0,
        ) is Some by {
            assert(fewer[i] == heads[i]);
        }
        a_current_list_stays(fewer, outputs, managers);
        assert(is_current(outputs)(heads[heads.len() - 1]));
        assert(finished_events(outputs, heads) =~= Seq::<HeadEventView>::empty());
    }
}

/// Each change on an output is carried out with the values that it asks for, and on that
/// output alone: a mode is given to the output and then programmed into the hardware, under
/// the name of the output and whether or not the output lists it; a position is given to the
/// output, which is then mapped there; a transform and a scale are given to the output; a
/// disabled output is unmapped, and an enabled one mapped where it is.
pub proof fn each_change_is_carried_out(output: OutputView, change: HeadChange)
    ensures
        ({
            let actions = change_actions(output, change);
            match change {
                HeadChange::Mode { w, h, refresh_mhz } => {
                    &&& actions.len() == 2
                    &&& actions[0] matches ConfigActionView::ChangeMode { output: id, mode } && id
                        == output.id && mode.size.w == w && mode.size.h == h && mode.refresh
                        == refresh_mhz
                    &&& actions[1] matches ConfigActionView::Modeset {
                        output_name,
                        w: width,
                        h: height,
                        refresh_mhz: rate,
                    } && output_name == output.name && width == w && height == h && rate
                        == refresh_mhz
                },
                HeadChange::Position { x, y } => {
                    &&& actions.len() == 2
                    &&& actions[0] matches ConfigActionView::ChangeLocation { output: id, location }
                        && id == output.id && location.x == x && location.y == y
                    &&& actions[1] matches ConfigActionView::MapOutput { output: id, location }
                        && id == output.id && location.x == x && location.y == y
                },
                HeadChange::Transform { transform } => {
                    &&& actions.len() == 1
                    &&& actions[0] matches ConfigActionView::ChangeTransform {
                        output: id,
                        transform: t,
                    } && id == output.id && t == transform
                },
                HeadChange::Scale { fixed } => {
                    &&& actions.len() == 1
                    &&& actions[0] matches ConfigActionView::ChangeScale { output: id, scale } && id
                        == output.id && scale == (Scale::Fractional { fixed })
                },
                HeadChange::Disable => {
                    &&& actions.len() == 1
                    &&& actions[0] matches ConfigActionView::UnmapOutput { output: id } && id
                        == output.id
                },
                HeadChange::Enable => {
                    &&& actions.len() == 1
                    &&& actions[0] matches ConfigActionView::MapOutput { output: id, location }
                        && id == output.id && location == output.location
                },
            }
        }),
{
}

/// What a change leaves an output with: the value that it asks for, and everything else as
/// it was. A mode that is set is listed from then on, and none is taken off the list.
pub proof fn each_change_sets_what_it_names(
    output: OutputView,
    change: HeadChange,
    mode: OutputMode,
)
    ensures
        ({
            let now = changed(output, change);
            &&& match change {
                HeadChange::Mode { w, h, refresh_mhz } => now.current_mode matches Some(m)
                    && m.size.w == w && m.size.h == h && m.refresh == refresh_mhz
                    && now.modes.contains(m) && (now.modes.contains(mode) <==> mode == m
                    || output.modes.contains(mode)),
                _ => now.current_mode == output.current_mode && now.modes == output.modes,
            }
            &&& now.location == (match change {
                HeadChange::Position { x, y } => Point { x, y },
                _ => output.location,
            })
            &&& now.transform == (match change {
                HeadChange::Transform { transform } => transform,
                _ => output.transform,
            })
            &&& now.scale == (match change {
                HeadChange::Scale { fixed } => Scale::Fractional { fixed },
                _ => output.scale,
            })
            &&& now.id == output.id && now.name == output.name
        }),
{
    match change {
        HeadChange::Mode { w, h, refresh_mhz } => {
            let m = mode_of(w, h, refresh_mhz);
            let now = changed(output, change).modes;
            if output.modes.contains(m) {
                assert(now == output.modes);
            } else {
                assert(now[output.modes.len() as int] == m);
                if output.modes.contains(mode) {
                    let i = choose|i: int|
                        0 <= i < output.modes.len() && output.modes[i] == mode;
                    assert(now[i] == mode);
                }
                if now.contains(mode) {
                    let i = choose|i: int| 0 <= i < now.len() && now[i] == mode;
                    if i < output.modes.len() {
                        assert(output.modes[i] == mode);
                    }
                }
            }
        },
        _ => {},
    }
}

proof fn changes_keep_places(
    outputs: Seq<OutputView>,
    changes: Seq<(Seq<char>, HeadChange)>,
    name: Seq<char>,
)
    ensures
        output_index(outputs_after(outputs, changes), name) == output_index(outputs, name),
{
    configuring_keeps_the_outputs(outputs, changes);
    let now = outputs_after(outputs, changes);
    let p = crate::output::is_named(name);
    assert forall|i: int| 0 <= i < now.len() implies p(#[trigger] now[i]) == p(outputs[i]) by {}
    crate::search::same_first_index(now, outputs, p);
}

proof fn place_of_a_change(
    outputs: Seq<OutputView>,
    changes: Seq<(Seq<char>, HeadChange)>,
    k: int,
) -> (at: int)
    requires
        0 <= k < changes.len(),
        output_index(outputs, changes[k].0) is Some,
    ensures
        ({
            let before = outputs_after(outputs, changes.take(k));
            let made = change_actions(
                before[output_index(outputs, changes[k].0)->0],
                changes[k].1,
            );
            &&& 0 <= at
            &&& at + made.len() <= actions_for(outputs, changes).len()
            &&& forall|j: int|
                0 <= j < made.len() ==> actions_for(outputs, changes)[at + j] == #[trigger] made[j]
        }),
    decreases changes.len(),
{
    let fewer = changes.drop_last();
    let last = changes.len() - 1;
    if k == last {
        changes_keep_places(outputs, fewer, changes[k].0);
        assert(changes.take(k) =~= fewer);
        actions_for(outputs, fewer).len() as int
    } else {
        let at = place_of_a_change(outputs, fewer, k);
        assert(fewer.take(k) =~= changes.take(k));
        at
    }
}

/// Whatever else a configuration holds, every mode change on an output that exists is among
/// its actions: the output is given exactly the mode that is asked for, and right after that
/// the hardware below it is programmed to exactly that mode.
pub proof fn every_mode_change_reaches_the_hardware(
    outputs: Seq<OutputView>,
    changes: Seq<(Seq<char>, HeadChange)>,
    k: int,
    i: int,
    w: i32,
    h: i32,
    refresh_mhz: i32,
)
    requires
        0 <= k < changes.len(),
        changes[k].1 == (HeadChange::Mode { w, h, refresh_mhz }),
        output_index(outputs, changes[k].0) == Some(i),
    ensures
        exists|at: int|
            #![trigger actions_for(outputs, changes)[at]]
            0 <= at < actions_for(outputs, changes).len() - 1 && actions_for(outputs, changes)[at]
                == (ConfigActionView::ChangeMode {
                output: outputs[i].id,
                mode: OutputMode { size: Size { w, h }, refresh: refresh_mhz },
            }) && actions_for(outputs, changes)[at + 1] == (ConfigActionView::Modeset {
                output_name: outputs[i].name,
                w,
                h,
                refresh_mhz,
            }),
{
    let at = place_of_a_change(outputs, changes, k);
    let before = outputs_after(outputs, changes.take(k));
    configuring_keeps_the_outputs(outputs, changes.take(k));
    crate::search::first_index_meaning(outputs, crate::output::is_named(changes[k].0));
    assert(before[i].id == outputs[i].id && before[i].name == outputs[i].name);
    let made = change_actions(before[i], changes[k].1);
    each_change_is_carried_out(before[i], changes[k].1);
    assert(made[0] == actions_for(outputs, changes)[at + 0]);
    assert(made[1] == actions_for(outputs, changes)[at + 1]);
    assert(actions_for(outputs, changes)[at] == made[0]);
}

/// Every change of the position, the transform or the scale of an output that exists has an
/// action that gives the output the new value; one that disables it has an action that
/// unmaps it.
pub proof fn every_other_change_has_its_action(
    outputs: Seq<OutputView>,
    changes: Seq<(Seq<char>, HeadChange)>,
    k: int,
    i: int,
)
    requires
        0 <= k < changes.len(),
        output_index(outputs, changes[k].0) == Some(i),
    ensures
        ({
            let actions = actions_for(outputs, changes);
            let output = outputs[i].id;
            match changes[k].1 {
                HeadChange::Position { x, y } => actions.contains(
                    ConfigActionView::ChangeLocation { output, location: Point { x, y } },
                ) && actions.contains(
                    ConfigActionView::MapOutput { output, location: Point { x, y } },
                ),
                HeadChange::Transform { transform } => actions.contains(
                    ConfigActionView::ChangeTransform { output, transform },
                ),
                HeadChange::Scale { fixed } => actions.contains(
                    ConfigActionView::ChangeScale { output, scale: Scale::Fractional { fixed } },
                ),
                HeadChange::Disable => actions.contains(ConfigActionView::UnmapOutput { output }),
                _ => true,
            }
        }),
{
    let at = place_of_a_change(outputs, changes, k);
    let before = outputs_after(outputs, changes.take(k));
    configuring_keeps_the_outputs(outputs, changes.take(k));
    crate::search::first_index_meaning(outputs, crate::output::is_named(changes[k].0));
    assert(before[i].id == outputs[i].id);
    let made = change_actions(before[i], changes[k].1);
    each_change_is_carried_out(before[i], changes[k].1);
    let actions = actions_for(outputs, changes);
    assert(actions[at + 0] == made[0]);
    if made.len() > 1 {
        assert(actions[at + 1] == made[1]);
    }
}

/// Changes are made one after the other: one more change is made on what the others have
/// left, on the output of its name, and on no other. What is carried out for the others stays
/// as it is, and comes first.
pub proof fn changes_are_made_in_order(
    outputs: Seq<OutputView>,
    changes: Seq<(Seq<char>, HeadChange)>,
    name: Seq<char>,
    change: HeadChange,
    i: int,
)
    requires
        0 <= i < outputs.len(),
    ensures
        ({
            let before = outputs_after(outputs, changes);
            let after = outputs_after(outputs, changes.push((name, change)));
            let done = actions_for(outputs, changes);
            &&& after[i] == if output_index(outputs, name) == Some(i) {
                changed(before[i], change)
            } else {
                before[i]
            }
            &&& actions_for(outputs, changes.push((name, change))).take(done.len() as int) == done
            &&& output_index(outputs, name) is None ==> actions_for(
                outputs,
                changes.push((name, change)),
            ) == done
        }),
{
    let more = changes.push((name, change));
    assert(more.drop_last() =~= changes);
    changes_keep_places(outputs, changes, name);
    configuring_keeps_the_outputs(outputs, changes);
    crate::search::first_index_meaning(outputs, crate::output::is_named(name));
    let done = actions_for(outputs, changes);
    assert(actions_for(outputs, more).take(done.len() as int) =~= done);
    if output_index(outputs, name) is None {
        assert(actions_for(outputs, more) =~= done);
    }
}

/// A request on a configuration head asks for exactly the values that it holds. A mode that
/// is not known, adaptive sync and all else ask for nothing.
pub proof fn requests_ask_for_what_they_hold(request: ConfigHeadRequest)
    ensures
        match request {
            ConfigHeadRequest::SetMode { mode } => match mode {
                Some(m) => requested_change(request) matches Some(HeadChange::Mode {
                    w,
                    h,
                    refresh_mhz,
                }) && w == m.width && h == m.height && refresh_mhz == m.refresh_mhz,
                None => requested_change(request) is None,
            },
            ConfigHeadRequest::SetCustomMode { width, height, refresh } => requested_change(
                request,
            ) matches Some(HeadChange::Mode { w, h, refresh_mhz }) && w == width && h == height
                && refresh_mhz == refresh,
            ConfigHeadRequest::SetPosition { x, y } => requested_change(request) matches Some(
                HeadChange::Position { x: to_x, y: to_y },
            ) && to_x == x && to_y == y,
            ConfigHeadRequest::SetTransform { transform } => requested_change(
                request,
            ) matches Some(HeadChange::Transform { transform: t }) && t == transform_from_wl(
                transform,
            ),
            ConfigHeadRequest::SetScale { fixed } => requested_change(request) matches Some(
                HeadChange::Scale { fixed: f },
            ) && f == fixed,
            _ => requested_change(request) is None,
        },
{
}

/// A transform keeps its angle and its mirroring in the protocol. A value that the protocol
/// does not have counts as no transform.
pub proof fn transforms_keep_their_meaning(unknown: u32)
    ensures
        transform_to_wl(OutputTransform::Normal) == wl_output::Transform::Normal,
        transform_to_wl(OutputTransform::Rotated90) == wl_output::Transform::_90,
        transform_to_wl(OutputTransform::Rotated180) == wl_output::Transform::_180,
        transform_to_wl(OutputTransform::Rotated270) == wl_output::Transform::_270,
        transform_to_wl(OutputTransform::Flipped) == wl_output::Transform::Flipped,
        transform_to_wl(OutputTransform::Flipped90) == wl_output::Transform::Flipped90,
        transform_to_wl(OutputTransform::Flipped180) == wl_output::Transform::Flipped180,
        transform_to_wl(OutputTransform::Flipped270) == wl_output::Transform::Flipped270,
        transform_from_wl(WEnum::Unknown(unknown)) == OutputTransform::Normal,
{
}

/// A head is announced first, then told what its output is, last how it is set up now, and
/// that it is enabled. The description is the make and the model, with a space between them.
pub proof fn heads_are_told_what_their_output_is(
    manager: u64,
    head: u64,
    output: OutputView,
    objects: Seq<Option<u64>>,
)
    ensures
        ({
            let events = head_events(manager, head, output, objects);
            let n = events.len() as int;
            &&& n >= 10
            &&& events[0] == (HeadEventView::Head { manager, head })
            &&& events[1] == (HeadEventView::Name { head, name: output.name })
            &&& events[2] matches HeadEventView::Description { head: of, description } && of == head
                && description.len() == output.make.len() + 1 + output.model.len()
                && description.take(output.make.len() as int) == output.make
                && description[output.make.len() as int] == ' ' && description.skip(
                output.make.len() as int + 1,
            ) == output.model
            &&& events[3] == (HeadEventView::PhysicalSize { head, size: output.physical_size })
            &&& events[4] == (HeadEventView::Make { head, make: output.make })
            &&& events[5] == (HeadEventView::Model { head, model: output.model })
            &&& events.subrange(6, n - 4) == modes_events(
                head,
                output,
                objects,
                output.modes.len() as int,
            )
            &&& events[n - 4] == (HeadEventView::Position { head, location: output.location })
            &&& events[n - 3] == (HeadEventView::Transform {
                head,
                transform: transform_to_wl(output.transform),
            })
            &&& events[n - 2] == (HeadEventView::Scale { head, scale: output.scale })
            &&& events[n - 1] == (HeadEventView::Enabled { head })
        }),
{
    reveal_strlit(" ");
    let events = head_events(manager, head, output, objects);
    let n = events.len() as int;
    let description = output.make + " "@ + output.model;
    assert(description.take(output.make.len() as int) =~= output.make);
    assert(description.skip(output.make.len() as int + 1) =~= output.model);
    assert(events.subrange(6, n - 4) =~= modes_events(
        head,
        output,
        objects,
        output.modes.len() as int,
    ));
}

proof fn what_is_said_of_a_mode(
    head: u64,
    mode: OutputMode,
    object: Option<u64>,
    output: OutputView,
    id: u64,
    size: Size,
    refresh: i32,
)
    ensures
        ({
            let events = mode_events(head, mode, object, output);
            let says = object == Some(id);
            &&& events.contains(HeadEventView::ModeSize { mode: id, size }) <==> says && mode.size
                == size
            &&& events.contains(HeadEventView::ModeRefresh { mode: id, refresh }) <==> says
                && mode.refresh == refresh
            &&& events.contains(HeadEventView::Mode { head, mode: id }) <==> says
            &&& events.contains(HeadEventView::CurrentMode { head, mode: id }) <==> says
                && output.current_mode == Some(mode)
        }),
{
    let events = mode_events(head, mode, object, output);
    if object is Some {
        let o = object->0;
        let p: int = if output.preferred_mode == Some(mode) {
            3
        } else {
            2
        };
        assert(events[0] == (HeadEventView::ModeSize { mode: o, size: mode.size }));
        assert(events[1] == (HeadEventView::ModeRefresh { mode: o, refresh: mode.refresh }));
        assert(p == 3 ==> events[2] == (HeadEventView::ModePreferred { mode: o }));
        assert(events[p] == (HeadEventView::Mode { head, mode: o }));
        if output.current_mode == Some(mode) {
            assert(events[p + 1] == (HeadEventView::CurrentMode { head, mode: o }));
            assert(events.len() == p + 2);
        } else {
            assert(events.len() == p + 1);
        }
    }
}

/// Each mode of an output that has an object is told its size and its refresh rate, and is
/// offered; the current one, and only that, is marked as current. Nothing is said of an
/// object that stands for no mode.
pub proof fn every_mode_is_described(
    head: u64,
    output: OutputView,
    objects: Seq<Option<u64>>,
    n: int,
    id: u64,
    size: Size,
    refresh: i32,
)
    requires
        0 <= n <= output.modes.len(),
        objects.len() == output.modes.len(),
    ensures
        ({
            let events = modes_events(head, output, objects, n);
            &&& events.contains(HeadEventView::ModeSize { mode: id, size }) <==> exists|k: int|
                0 <= k < n && (#[trigger] objects[k]) == Some(id) && output.modes[k].size == size
            &&& events.contains(HeadEventView::ModeRefresh { mode: id, refresh }) <==> exists|
                k: int,
            |
                0 <= k < n && (#[trigger] objects[k]) == Some(id) && output.modes[k].refresh
                    == refresh
            &&& events.contains(HeadEventView::Mode { head, mode: id }) <==> exists|k: int|
                0 <= k < n && (#[trigger] objects[k]) == Some(id)
            &&& events.contains(HeadEventView::CurrentMode { head, mode: id }) <==> exists|k: int|
                0 <= k < n && (#[trigger] objects[k]) == Some(id) && output.current_mode == Some(
                    output.modes[k],
                )
        }),
    decreases n,
{
    if n > 0 {
        every_mode_is_described(head, output, objects, n - 1, id, size, refresh);
        let before = modes_events(head, output, objects, n - 1);
        let last = mode_events(head, output.modes[n - 1], objects[n - 1], output);
        what_is_said_of_a_mode(
            head,
            output.modes[n - 1],
            objects[n - 1],
            output,
            id,
            size,
            refresh,
        );
        crate::search::concat_contains(
            before,
            last,
            HeadEventView::ModeSize { mode: id, size },
        );
        crate::search::concat_contains(
            before,
            last,
            HeadEventView::ModeRefresh { mode: id, refresh },
        );
        crate::search::concat_contains(before, last, HeadEventView::Mode { head, mode: id });
        crate::search::concat_contains(before, last, HeadEventView::CurrentMode { head, mode: id });
        assert(objects[n - 1] == objects[n - 1]);
    }
}

/// Only heads whose output is gone are finished.
pub proof fn only_heads_of_gone_outputs_are_finished(
    heads: Seq<(Seq<char>, Seq<AdvertisedHead>)>,
    outputs: Seq<OutputView>,
    head: u64,
)
    requires
        finished_events(outputs, heads).contains(HeadEventView::Finished { head }),
    ensures
        exists|entry: int|
            #![trigger heads[entry]]
            0 <= entry < heads.len() && output_index(outputs, heads[entry].0) is None
                && holds_head(heads[entry].1, head),
    decreases heads.len(),
{
    if heads.len() > 0 {
        let event = HeadEventView::Finished { head };
        let fewer = heads.drop_last();
        let last = if is_current(outputs)(heads.last()) {
            Seq::empty()
        } else {
            heads.last().1.map_values(
                |h: AdvertisedHead| HeadEventView::Finished { head: h.head },
            )
        };
        crate::search::concat_contains(finished_events(outputs, fewer), last, event);
        if finished_events(outputs, fewer).contains(event) {
            only_heads_of_gone_outputs_are_finished(fewer, outputs, head);
            let entry = choose|entry: int|
                #![trigger fewer[entry]]
                0 <= entry < fewer.len() && output_index(outputs, fewer[entry].0) is None
                    && holds_head(fewer[entry].1, head);
            assert(heads[entry] == fewer[entry]);
        } else {
            let k = choose|k: int| 0 <= k < last.len() && last[k] == event;
            assert(heads.last().1[k].head == head);
            assert(heads[heads.len() - 1] == heads.last());
            assert(holds_head(heads[heads.len() - 1].1, head));
        }
    }
}

proof fn missing_heads_of_a_manager_are_missing(
    heads: Seq<(Seq<char>, Seq<AdvertisedHead>)>,
    outputs: Seq<OutputView>,
    manager: u64,
    n: int,
    i: int,
)
    requires
        0 <= n <= outputs.len() <= usize::MAX,
        0 <= i < missing_for(heads, outputs, manager, n).len(),
    ensures
        ({
            let m = missing_for(heads, outputs, manager, n)[i];
            &&& m.manager == manager
            &&& m.place < n
            &&& !has_head_for(heads, outputs[m.place as int].name, manager)
        }),
    decreases n,
{
    if n > 0 {
        let before = missing_for(heads, outputs, manager, n - 1);
        if i < before.len() {
            missing_heads_of_a_manager_are_missing(heads, outputs, manager, n - 1, i);
        }
    }
}

/// A head is created only for an output that there is, for a manager that is bound, and that
/// has none for it yet.
pub proof fn no_manager_gets_a_head_twice(
    heads: Seq<(Seq<char>, Seq<AdvertisedHead>)>,
    outputs: Seq<OutputView>,
    managers: Seq<u64>,
    i: int,
)
    requires
        outputs.len() <= usize::MAX,
        0 <= i < missing_for_all(heads, outputs, managers).len(),
    ensures
        ({
            let m = missing_for_all(heads, outputs, managers)[i];
            &&& managers.contains(m.manager)
            &&& m.place < outputs.len()
            &&& !has_head_for(heads, outputs[m.place as int].name, m.manager)
        }),
    decreases managers.len(),
{
    let fewer = managers.drop_last();
    let before = missing_for_all(heads, outputs, fewer);
    if i < before.len() {
        no_manager_gets_a_head_twice(heads, outputs, fewer, i);
        let m = before[i];
        let k = choose|k: int| 0 <= k < fewer.len() && fewer[k] == m.manager;
        assert(managers[k] == m.manager);
    } else {
        missing_heads_of_a_manager_are_missing(
            heads,
            outputs,
            managers.last(),
            outputs.len() as int,
            i - before.len(),
        );
        assert(managers[managers.len() - 1] == managers.last());
    }
}

/// Every head that was created is described in full, to the manager that it was created for.
pub proof fn created_heads_are_described(
    outputs: Seq<OutputView>,
    created: Seq<CreatedHead>,
    i: int,
    event: HeadEventView,
)
    requires
        0 <= i < created.len(),
        created[i].head is Some,
        head_events(
            created[i].manager,
            created[i].head->0,
            outputs[created[i].place as int],
            created[i].objects@,
        ).contains(event),
    ensures
        announced(outputs, created).contains(event),
    decreases created.len(),
{
    let fewer = created.drop_last();
    let c = created.last();
    let last = match c.head {
        Some(head) => head_events(c.manager, head, outputs[c.place as int], c.objects@),
        None => Seq::empty(),
    };
    crate::search::concat_contains(announced(outputs, fewer), last, event);
    if i < fewer.len() {
        assert(fewer[i] == created[i]);
        created_heads_are_described(outputs, fewer, i, event);
    }
}

/// Every manager is told the end of a batch once, with the serial of the batch.
pub proof fn every_manager_is_told_the_end(managers: Seq<u64>, serial: u32, i: int)
    ensures
        done_events(managers, serial).len() == managers.len(),
        0 <= i < managers.len() ==> (done_events(managers, serial)[i] matches HeadEventView::Done {
            event,
        } && event.manager == managers[i] && event.serial == serial),
{
}

/// A change is kept for the configuration that it was asked for, after those that were asked
/// for before.
pub proof fn changes_are_kept_in_order(
    pending: Map<u64, Seq<(Seq<char>, HeadChange)>>,
    config: u64,
    name: Seq<char>,
    change: HeadChange,
    i: int,
)
    ensures
        ({
            let before = changes_of(pending, config);
            let after = changes_of(with_change(pending, config, name, change), config);
            &&& after.len() == before.len() + 1
            &&& 0 <= i < before.len() ==> after[i] == before[i]
            &&& after.last() == (name, change)
            &&& !pending.contains_key(config) ==> before.len() == 0
        }),
{
}

/// The view of an action keeps its kind and everything that it holds; lists are viewed one
/// by one, in order.
pub proof fn config_action_views_lose_nothing(
    action: ConfigAction,
    actions: Seq<ConfigAction>,
    i: int,
)
    ensures
        match action {
            ConfigAction::UnmapOutput { output } => action@ == (ConfigActionView::UnmapOutput {
                output,
            }),
            ConfigAction::MapOutput { output, location } => action@ == (
            ConfigActionView::MapOutput { output, location }),
            ConfigAction::ChangeMode { output, mode } => action@ == (
            ConfigActionView::ChangeMode { output, mode }),
            ConfigAction::Modeset { output_name, w, h, refresh_mhz } => action@ == (
            ConfigActionView::Modeset { output_name: output_name@, w, h, refresh_mhz }),
            ConfigAction::ChangeLocation { output, location } => action@ == (
            ConfigActionView::ChangeLocation { output, location }),
            ConfigAction::ChangeTransform { output, transform } => action@ == (
            ConfigActionView::ChangeTransform { output, transform }),
            ConfigAction::ChangeScale { output, scale } => action@ == (
            ConfigActionView::ChangeScale { output, scale }),
            ConfigAction::Succeeded => action@ is Succeeded,
        },
        action_views(actions).len() == actions.len(),
        0 <= i < actions.len() ==> action_views(actions)[i] == actions[i]@,
{
}

/// The view of an event keeps its kind and everything that it holds; lists are viewed one by
/// one, in order.
pub proof fn head_event_views_lose_nothing(event: HeadEvent, events: Seq<HeadEvent>, i: int)
    ensures
        match event {
            HeadEvent::Head { manager, head } => event@ == (HeadEventView::Head { manager, head }),
            HeadEvent::Name { head, name } => event@ == (HeadEventView::Name { head, name: name@ }),
            HeadEvent::Description { head, description } => event@ == (
            HeadEventView::Description { head, description: description@ }),
            HeadEvent::PhysicalSize { head, size } => event@ == (HeadEventView::PhysicalSize {
                head,
                size,
            }),
            HeadEvent::Make { head, make } => event@ == (HeadEventView::Make { head, make: make@ }),
            HeadEvent::Model { head, model } => event@ == (HeadEventView::Model {
                head,
                model: model@,
            }),
            HeadEvent::ModeSize { mode, size } => event@ == (HeadEventView::ModeSize {
                mode,
                size,
            }),
            HeadEvent::ModeRefresh { mode, refresh } => event@ == (HeadEventView::ModeRefresh {
                mode,
                refresh,
            }),
            HeadEvent::ModePreferred { mode } => event@ == (HeadEventView::ModePreferred { mode }),
            HeadEvent::Mode { head, mode } => event@ == (HeadEventView::Mode { head, mode }),
            HeadEvent::CurrentMode { head, mode } => event@ == (HeadEventView::CurrentMode {
                head,
                mode,
            }),
            HeadEvent::Position { head, location } => event@ == (HeadEventView::Position {
                head,
                location,
            }),
            HeadEvent::Transform { head, transform } => event@ == (HeadEventView::Transform {
                head,
                transform,
            }),
            HeadEvent::Scale { head, scale } => event@ == (HeadEventView::Scale { head, scale }),
            HeadEvent::Enabled { head } => event@ == (HeadEventView::Enabled { head }),
            HeadEvent::Finished { head } => event@ == (HeadEventView::Finished { head }),
            HeadEvent::Done { event: done } => event@ == (HeadEventView::Done { event: done }),
        },
        head_event_views(events).len() == events.len(),
        0 <= i < events.len() ==> head_event_views(events)[i] == events[i]@,
{
}

/// A head leads to the output of the first entry that holds it. One that no entry holds leads
/// to none.
pub proof fn heads_lead_to_the_entry_that_holds_them(
    heads: Seq<(Seq<char>, Seq<AdvertisedHead>)>,
    head: u64,
    entry: int,
    k: int,
)
    ensures
        0 <= entry < heads.len() && 0 <= k < heads[entry].1.len() && heads[entry].1[k].head == head
            && (forall|i: int, j: int|
            0 <= i < entry && 0 <= j < heads[i].1.len() ==> (#[trigger] heads[i].1[j]).head != head)
            ==> head_name(heads, head) == heads[entry].0,
        (forall|i: int, j: int|
            0 <= i < heads.len() && 0 <= j < heads[i].1.len() ==> (
            #[trigger] heads[i].1[j]).head != head) ==> head_name(heads, head).len() == 0,
{
    let p = lists_head(head);
    if 0 <= entry < heads.len() && 0 <= k < heads[entry].1.len() && heads[entry].1[k].head == head
        && (forall|i: int, j: int|
        0 <= i < entry && 0 <= j < heads[i].1.len() ==> (#[trigger] heads[i].1[j]).head != head) {
        assert(holds_head(heads[entry].1, head));
        assert forall|i: int| 0 <= i < entry implies !p(#[trigger] heads[i]) by {
            if holds_head(heads[i].1, head) {
                let j = choose|j: int|
                    0 <= j < heads[i].1.len() && (#[trigger] heads[i].1[j]).head == head;
                assert(heads[i].1[j].head == head);
            }
        }
        crate::search::first_index_at(heads, p, entry);
    }
    if forall|i: int, j: int|
        0 <= i < heads.len() && 0 <= j < heads[i].1.len() ==> (#[trigger] heads[i].1[j]).head
            != head {
        assert forall|i: int| 0 <= i < heads.len() implies !p(#[trigger] heads[i]) by {
            if holds_head(heads[i].1, head) {
                let j = choose|j: int|
                    0 <= j < heads[i].1.len() && (#[trigger] heads[i].1[j]).head == head;
                assert(heads[i].1[j].head == head);
            }
        }
        crate::search::first_index_none(heads, p);
    }
}

/// A manager has a head for an output exactly if some entry of that output's name holds a
/// head of that very manager.
pub proof fn managers_have_their_own_heads(
    heads: Seq<(Seq<char>, Seq<AdvertisedHead>)>,
    name: Seq<char>,
    manager: u64,
)
    ensures
        has_head_for(heads, name, manager) <==> exists|i: int, k: int|
            0 <= i < heads.len() && 0 <= k < heads[i].1.len() && (
            #[trigger] heads[i].1[k]).manager == manager && heads[i].0 == name,
{
    if has_head_for(heads, name, manager) {
        let i = choose|i: int| 0 <= i < heads.len() && serves(#[trigger] heads[i], name, manager);
        let k = choose|k: int|
            0 <= k < heads[i].1.len() && (#[trigger] heads[i].1[k]).manager == manager;
        assert(heads[i].1[k].manager == manager && heads[i].0 == name);
    }
    if exists|i: int, k: int|
        0 <= i < heads.len() && 0 <= k < heads[i].1.len() && (#[trigger] heads[i].1[k]).manager
            == manager && heads[i].0 == name {
        let (i, k) = choose|i: int, k: int|
            0 <= i < heads.len() && 0 <= k < heads[i].1.len() && (
            #[trigger] heads[i].1[k]).manager == manager && heads[i].0 == name;
        assert(heads[i].1[k].manager == manager);
        assert(serves(heads[i], name, manager));
    }
}

/// The entries of outputs that there are, and only those, outlast a change of the outputs.
pub proof fn entries_of_present_outputs_are_kept(
    heads: Seq<(Seq<char>, Seq<AdvertisedHead>)>,
    outputs: Seq<OutputView>,
    entry: (Seq<char>, Seq<AdvertisedHead>),
)
    ensures
        heads.filter(is_current(outputs)).contains(entry) <==> heads.contains(entry) && exists|
            i: int,
        | 0 <= i < outputs.len() && (#[trigger] outputs[i]).name == entry.0,
{
    crate::search::filter_membership(heads, is_current(outputs), entry);
    crate::output::outputs_are_found_by_their_name(outputs, entry.0);
}

/// Advertising a head keeps every head that was advertised before, under the same name, and
/// adds the new one for its manager.
pub proof fn advertised_heads_stay(
    heads: Seq<(Seq<char>, Seq<AdvertisedHead>)>,
    name: Seq<char>,
    new: AdvertisedHead,
    entry: int,
    k: int,
)
    ensures
        ({
            let now = with_head(heads, name, new);
            &&& 0 <= entry < heads.len() ==> entry < now.len() && now[entry].0 == heads[entry].0
            &&& 0 <= entry < heads.len() && 0 <= k < heads[entry].1.len() ==> k
                < now[entry].1.len() && now[entry].1[k] == heads[entry].1[k]
            &&& exists|i: int|
                0 <= i < now.len() && (#[trigger] now[i]).0 == name && now[i].1.len() > 0
                    && now[i].1.last() == new
            &&& now.len() <= heads.len() + 1
        }),
{
    let now = with_head(heads, name, new);
    crate::search::first_index_meaning(heads, is_entry_of(name));
    let at = match first_index(heads, is_entry_of(name)) {
        Some(i) => i,
        None => heads.len() as int,
    };
    assert(now[at].0 == name && now[at].1.last() == new);
}

/// The changes of configurations are those that they hold, in order.
pub proof fn changes_are_viewed_in_order(
    changes: Seq<NamedChange>,
    pending: Map<u64, PendingConfig>,
    heads: Seq<AdvertisedOutput>,
    config: u64,
    i: int,
)
    ensures
        changes_view(changes).len() == changes.len(),
        0 <= i < changes.len() ==> changes_view(changes)[i] == (
            changes[i].output_name@,
            changes[i].change,
        ),
        pending_changes(pending).contains_key(config) <==> pending.contains_key(config),
        pending.contains_key(config) ==> pending_changes(pending)[config] == changes_view(
            pending[config].changes@,
        ),
        heads_view(heads).len() == heads.len(),
        0 <= i < heads.len() ==> heads_view(heads)[i] == (heads[i].name@, heads[i].heads@),
{
}

} // verus!
