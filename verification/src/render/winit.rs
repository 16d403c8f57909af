//! The compositor nested in a window of another session.

use crate::geometry::{Point, Size};
use crate::output::{
    add_mode, find_output_with_id, has_id, output_views, with_mode, Output, OutputMode,
    OutputTransform, OutputView, Scale,
};
use crate::render::udev::{BackendData, BackendView};
use crate::search::first_index;
use crate::state::BlueState;
use vstd::prelude::*;

verus! {

/// The refresh rate of the nested output, in millihertz.
pub const WINIT_REFRESH: i32 = 60_000;

/// What happened to the window.
#[derive(Debug, Clone, Copy, PartialEq, Eq, Structural)]
pub enum WinitEvent {
    Resized { size: Size },
    Input,
    CloseRequested,
    Redraw,
    Focus,
}

/// What follows an event of the window.
#[derive(Debug, Clone, Copy, PartialEq, Eq, Structural)]
pub enum WinitReply {
    /// Give the output its new mode, and track its damage anew.
    ChangeMode { output: u64, mode: OutputMode },
    /// Hand the input event on.
    HandleInput,
    /// Draw a frame.
    Render { output: u64 },
    Nothing,
}

/// The mode of a window of that size.
pub open spec fn window_mode(size: Size) -> OutputMode {
    OutputMode { size, refresh: WINIT_REFRESH }
}

/// The output that the window is.
pub open spec fn window_output(id: u64, size: Size) -> OutputView {
    OutputView {
        id,
        name: "winit"@,
        make: "Blue"@,
        model: "Winit"@,
        physical_size: Size { w: 0, h: 0 },
        modes: seq![window_mode(size)],
        current_mode: Some(window_mode(size)),
        preferred_mode: Some(window_mode(size)),
        location: Point { x: 0, y: 0 },
        transform: OutputTransform::Normal,
        scale: Scale::Integer { factor: 1 },
    }
}

/// `output` at a new size.
pub open spec fn resized_output(output: OutputView, size: Size) -> OutputView {
    OutputView {
        current_mode: Some(window_mode(size)),
        modes: with_mode(output.modes, window_mode(size)),
        ..output
    }
}

/// The outputs after the window was resized.
pub open spec fn outputs_after_resize(outputs: Seq<OutputView>, id: u64, size: Size) -> Seq<
    OutputView,
> {
    match first_index(outputs, has_id(id)) {
        Some(i) => outputs.update(i, resized_output(outputs[i], size)),
        None => outputs,
    }
}

/// What follows an event.
pub open spec fn winit_reply(backend: BackendView, event: WinitEvent) -> WinitReply {
    match (backend, event) {
        (BackendView::Winit { output }, WinitEvent::Resized { size }) => WinitReply::ChangeMode {
            output,
            mode: window_mode(size),
        },
        (_, WinitEvent::Input) => WinitReply::HandleInput,
        (BackendView::Winit { output }, WinitEvent::Redraw) => WinitReply::Render { output },
        _ => WinitReply::Nothing,
    }
}

/// Begins to draw in a window. Its output, which the caller maps at the origin, is the
/// only one, and clients are told at once which buffers can be imported.
pub fn init_winit(state: &mut BlueState, id: u64, size: Size)
    ensures
        output_views(final(state).outputs@) == output_views(old(state).outputs@).push(
            window_output(id, size),
        ),
        final(state).backend_data@ == (BackendView::Winit { output: id }),
        final(state).dmabuf_registered,
        final(state).outputs@.len() == old(state).outputs@.len() + 1,
        final(state).outputs@.last().id == id,
        final(state).outputs@.last().current_mode == Some(
            OutputMode { size, refresh: 60_000 },
        ),
        *final(state) == (BlueState {
            outputs: final(state).outputs,
            backend_data: final(state).backend_data,
            dmabuf_registered: final(state).dmabuf_registered,
            ..*old(state)
        }),
{
    let ghost before = output_views(state.outputs@);
    let mode = OutputMode { size, refresh: WINIT_REFRESH };
    let mut modes: Vec<OutputMode> = Vec::new();
    add_mode(&mut modes, mode);
    let output = Output {
        id,
        name: "winit".to_string(),
        make: "Blue".to_string(),
        model: "Winit".to_string(),
        physical_size: Size { w: 0, h: 0 },
        modes,
        current_mode: Some(mode),
        preferred_mode: Some(mode),
        location: Point { x: 0, y: 0 },
        transform: OutputTransform::Normal,
        scale: Scale::Integer { factor: 1 },
    };
    assert(output@.modes =~= window_output(id, size).modes);
    state.outputs.push(output);
    assert(output_views(state.outputs@) =~= before.push(window_output(id, size)));
    state.dmabuf_registered = true;
    state.backend_data = BackendData::Winit { output: id };
}

/// Takes in an event of the window.
pub fn handle_winit_event(state: &mut BlueState, event: WinitEvent) -> (reply: WinitReply)
    ensures
        reply == winit_reply(old(state).backend_data@, event),
        output_views(final(state).outputs@) == match reply {
            WinitReply::ChangeMode { output, mode } => outputs_after_resize(
                output_views(old(state).outputs@),
                output,
                mode.size,
            ),
            _ => output_views(old(state).outputs@),
        },
        final(state).should_exit == (old(state).should_exit || event == WinitEvent::CloseRequested),
        event is CloseRequested ==> final(state).should_exit,
        !(event is CloseRequested) ==> final(state).should_exit == old(state).should_exit,
        !(event is Resized) ==> output_views(final(state).outputs@) == output_views(
            old(state).outputs@,
        ),
        *final(state) == (BlueState {
            outputs: final(state).outputs,
            should_exit: final(state).should_exit,
            ..*old(state)
        }),
{
    match event {
        WinitEvent::Resized { size } => match state.backend_data {
            BackendData::Winit { output } => {
                let mode = OutputMode { size, refresh: WINIT_REFRESH };
                let ghost before = output_views(state.outputs@);
                match find_output_with_id(&state.outputs, output) {
                    Some(i) => {
                        add_mode(&mut state.outputs[i].modes, mode);
                        state.outputs[i].current_mode = Some(mode);
                        assert(output_views(state.outputs@) =~= before.update(
                            i as int,
                            resized_output(before[i as int], size),
                        ));
                    },
                    None => {},
                }
                WinitReply::ChangeMode { output, mode }
            },
            _ => WinitReply::Nothing,
        },
        WinitEvent::Input => WinitReply::HandleInput,
        WinitEvent::CloseRequested => {
            state.should_exit = true;
            WinitReply::Nothing
        },
        WinitEvent::Redraw => match state.backend_data {
            BackendData::Winit { output } => WinitReply::Render { output },
            _ => WinitReply::Nothing,
        },
        WinitEvent::Focus => WinitReply::Nothing,
    }
}

/// The window that frames are drawn in, if the compositor is nested.
pub fn render_winit(state: &BlueState) -> (output: Option<u64>)
    ensures
        output == match state.backend_data@ {
            BackendView::Winit { output } => Some(output),
            _ => None,
        },
        output is Some <==> state.backend_data@ is Winit,
        output matches Some(o) ==> state.backend_data@ == (BackendView::Winit { output: o }),
{
    match state.backend_data {
        BackendData::Winit { output } => Some(output),
        _ => None,
    }
}

/// The nested output is valid from the start, and stays so when the window is
/// resized.
pub proof fn the_nested_output_is_valid(output: OutputView, id: u64, size: Size)
    requires
        output.valid(),
    ensures
        window_output(id, size).valid(),
        resized_output(output, size).valid(),
        resized_output(output, size).current_mode == Some(window_mode(size)),
{
    assert(window_output(id, size).modes[0] == window_mode(size));
    crate::output::modes_stay_distinct(output.modes, window_mode(size));
}

/// The window is an output at the origin, as large as it is, at sixty hertz, neither turned
/// nor scaled.
pub proof fn the_window_is_an_output(id: u64, size: Size)
    ensures
        ({
            let output = window_output(id, size);
            &&& output.id == id
            &&& output.name == "winit"@
            &&& output.make == "Blue"@
            &&& output.model == "Winit"@
            &&& output.current_mode matches Some(mode) && mode.size == size && mode.refresh
                == 60_000
            &&& output.preferred_mode == output.current_mode
            &&& output.modes.len() == 1 && output.current_mode == Some(output.modes[0])
            &&& output.location.x == 0 && output.location.y == 0
            &&& output.physical_size.w == 0 && output.physical_size.h == 0
            &&& output.transform == OutputTransform::Normal
            &&& output.scale == (Scale::Integer { factor: 1 })
        }),
{
}

/// Resizing the window gives its output, and no other, a mode of the new size, which is then
/// listed; everything else of the output stays.
pub proof fn resizing_changes_the_mode_of_the_window(
    outputs: Seq<OutputView>,
    id: u64,
    size: Size,
    i: int,
)
    requires
        0 <= i < outputs.len(),
    ensures
        ({
            let now = outputs_after_resize(outputs, id, size);
            &&& now.len() == outputs.len()
            &&& first_index(outputs, has_id(id)) != Some(i) ==> now[i] == outputs[i]
            &&& outputs[i].id != id ==> now[i] == outputs[i]
            &&& first_index(outputs, has_id(id)) == Some(i) ==> {
                &&& now[i].current_mode matches Some(mode) && mode.size == size && mode.refresh
                    == 60_000 && now[i].modes.contains(mode)
                &&& now[i] == (OutputView {
                    current_mode: now[i].current_mode,
                    modes: now[i].modes,
                    ..outputs[i]
                })
                &&& now[i].modes.take(outputs[i].modes.len() as int) == outputs[i].modes
                &&& now[i].modes.len() <= outputs[i].modes.len() + 1
            }
        }),
{
    crate::search::first_index_meaning(outputs, has_id(id));
    if first_index(outputs, has_id(id)) == Some(i) {
        let mode = window_mode(size);
        let before = outputs[i].modes;
        let after = with_mode(before, mode);
        if !before.contains(mode) {
            assert(after[before.len() as int] == mode);
        }
        assert(after.take(before.len() as int) =~= before);
    }
}

/// Each event of the window is answered: a resize by the new mode of its output, input by
/// handing it on, a redraw by a frame. A closed window and a change of focus are answered by
/// nothing; so are a resize and a redraw where the compositor is not nested.
pub proof fn window_events_are_answered(backend: BackendView, event: WinitEvent)
    ensures
        match event {
            WinitEvent::Resized { size } => match backend {
                BackendView::Winit { output } => winit_reply(
                    backend,
                    event,
                ) matches WinitReply::ChangeMode { output: of, mode } && of == output && mode.size
                    == size && mode.refresh == 60_000,
                _ => winit_reply(backend, event) is Nothing,
            },
            WinitEvent::Input => winit_reply(backend, event) is HandleInput,
            WinitEvent::Redraw => match backend {
                BackendView::Winit { output } => winit_reply(backend, event) == (
                WinitReply::Render { output }),
                _ => winit_reply(backend, event) is Nothing,
            },
            WinitEvent::CloseRequested => winit_reply(backend, event) is Nothing,
            WinitEvent::Focus => winit_reply(backend, event) is Nothing,
        },
{
}

} // verus!
