//! Pointer motion, buttons and scrolling, and the dispatch of input events.

use crate::geometry::{fits_i32, Point, Rectangle, Size};
use crate::input::keyboard::{
    handle_keyboard, is_command_for, key_action, meta_after, shortcut, super_pressed_after,
    super_used_after, switcher_after, switcher_index_after, KeyEvent, KeyReply,
};
use crate::state::{BlueState, Desktop};
use vstd::prelude::*;

verus! {

/// The width of an output that is not known.
pub const FALLBACK_WIDTH: i32 = 1920;

/// The height of an output that is not known.
pub const FALLBACK_HEIGHT: i32 = 1080;

/// The corners between which the pointer can move.
#[derive(Debug, Clone, Copy, PartialEq, Eq, Structural)]
pub struct Bounds {
    pub min: Point,
    pub max: Point,
}

/// The window below the pointer.
#[derive(Debug, Clone, Copy, PartialEq, Eq, Structural)]
pub struct WindowUnderPointer {
    pub window: u64,
    pub surface: Option<u64>,
}

/// A direction of scrolling.
#[derive(Debug, Clone, Copy, PartialEq, Eq, Structural)]
pub enum ScrollAxis {
    Horizontal,
    Vertical,
}

/// What a scroll event says of one axis.
#[derive(Debug, Clone, Copy, PartialEq, Eq, Structural)]
pub struct AxisInput {
    /// The event has an amount for the axis.
    pub has_amount: bool,
    /// The amount in 120ths of a wheel step.
    pub v120: Option<i32>,
}

/// One thing to carry out for a pointer event. A list of actions is carried out
/// in order.
#[derive(Debug, Clone, Copy, PartialEq, Eq, Structural)]
pub enum PointerAction {
    /// Raise the window and activate it.
    Raise { window: u64 },
    /// Move the keyboard focus to the surface, or away from all.
    SetFocus { surface: Option<u64> },
    /// Forward the button.
    Button,
    /// Add the relative direction and the amount of the axis to the scroll frame.
    FrameAmount { axis: ScrollAxis },
    /// Add wheel steps of the axis to the scroll frame.
    FrameV120 { axis: ScrollAxis, v120: i32 },
    /// Send the scroll frame, with a wheel as its source.
    Axis,
    /// End the group of pointer events.
    Frame,
}

/// An input event, with what was looked up for it.
#[derive(Debug, Clone, Copy, PartialEq, Eq, Structural)]
pub enum InputEvent {
    Keyboard { event: KeyEvent },
    PointerMotion,
    PointerMotionAbsolute,
    PointerButton { pressed: bool, under: Option<WindowUnderPointer> },
    PointerAxis { horizontal: AxisInput, vertical: AxisInput },
    Other,
}

/// What an input event leads to.
#[derive(Debug, Clone, PartialEq, Eq)]
pub enum InputReply {
    Key { reply: KeyReply },
    /// Move the pointer, but not past the bounds.
    MoveWithin { bounds: Bounds },
    /// Place the pointer at its share of the size.
    PlaceIn { size: Size },
    Pointer { actions: Vec<PointerAction> },
    Nothing,
}

/// Whether the far corner of the output can be told.
pub open spec fn bounds_fit(output: Option<Rectangle>) -> bool {
    output matches Some(g) ==> fits_i32(g.loc.x + g.size.w) && fits_i32(g.loc.y + g.size.h)
}

/// The corners of the output, or of a usual one where there is none.
pub open spec fn bounds_of(output: Option<Rectangle>) -> Bounds {
    match output {
        Some(g) => Bounds {
            min: g.loc,
            max: Point { x: (g.loc.x + g.size.w) as i32, y: (g.loc.y + g.size.h) as i32 },
        },
        None => Bounds {
            min: Point { x: 0, y: 0 },
            max: Point { x: FALLBACK_WIDTH, y: FALLBACK_HEIGHT },
        },
    }
}

/// The size of the output, or of a usual one where there is none.
pub open spec fn size_of_output(output: Option<Rectangle>) -> Size {
    match output {
        Some(g) => g.size,
        None => Size { w: FALLBACK_WIDTH, h: FALLBACK_HEIGHT },
    }
}

/// What a button leads to: a press raises and focuses the window below it, or
/// takes the focus away where there is none.
pub open spec fn button_actions(pressed: bool, under: Option<WindowUnderPointer>) -> Seq<
    PointerAction,
> {
    let press = match under {
        Some(target) => match target.surface {
            Some(surface) => seq![
                PointerAction::Raise { window: target.window },
                PointerAction::SetFocus { surface: Some(surface) },
            ],
            None => seq![PointerAction::Raise { window: target.window }],
        },
        None => seq![PointerAction::SetFocus { surface: None }],
    };
    let forward = seq![PointerAction::Button, PointerAction::Frame];
    if pressed {
        press + forward
    } else {
        forward
    }
}

/// What one axis adds to a scroll frame.
pub open spec fn axis_part(axis: ScrollAxis, input: AxisInput) -> Seq<PointerAction> {
    if !input.has_amount {
        Seq::empty()
    } else {
        match input.v120 {
            Some(v120) => seq![
                PointerAction::FrameAmount { axis },
                PointerAction::FrameV120 { axis, v120 },
            ],
            None => seq![PointerAction::FrameAmount { axis }],
        }
    }
}

/// What scrolling leads to.
pub open spec fn scroll_actions(horizontal: AxisInput, vertical: AxisInput) -> Seq<PointerAction> {
    axis_part(ScrollAxis::Horizontal, horizontal) + axis_part(ScrollAxis::Vertical, vertical)
        + seq![PointerAction::Axis, PointerAction::Frame]
}

/// Finds the corners that the pointer stays between.
pub fn output_bounds(output: Option<Rectangle>) -> (bounds: Bounds)
    requires
        bounds_fit(output),
    ensures
        bounds == bounds_of(output),
{
    match output {
        Some(g) => Bounds {
            min: g.loc,
            max: Point { x: g.loc.x + g.size.w, y: g.loc.y + g.size.h },
        },
        None => Bounds {
            min: Point { x: 0, y: 0 },
            max: Point { x: FALLBACK_WIDTH, y: FALLBACK_HEIGHT },
        },
    }
}

/// Finds the size that an absolute position is a share of.
pub fn absolute_size(output: Option<Rectangle>) -> (size: Size)
    ensures
        size == size_of_output(output),
{
    match output {
        Some(g) => g.size,
        None => Size { w: FALLBACK_WIDTH, h: FALLBACK_HEIGHT },
    }
}

/// Takes in a pointer button.
pub fn handle_pointer_button(pressed: bool, under: Option<WindowUnderPointer>) -> (actions: Vec<
    PointerAction,
>)
    ensures
        actions@ == button_actions(pressed, under),
{
    let mut actions: Vec<PointerAction> = Vec::new();
    if pressed {
        match under {
            Some(target) => {
                actions.push(PointerAction::Raise { window: target.window });
                match target.surface {
                    Some(surface) => {
                        actions.push(PointerAction::SetFocus { surface: Some(surface) });
                    },
                    None => {},
                }
            },
            None => {
                actions.push(PointerAction::SetFocus { surface: None });
            },
        }
    }
    actions.push(PointerAction::Button);
    actions.push(PointerAction::Frame);
    assert(actions@ =~= button_actions(pressed, under));
    actions
}

fn push_axis(actions: &mut Vec<PointerAction>, axis: ScrollAxis, input: AxisInput)
    ensures
        final(actions)@ == old(actions)@ + axis_part(axis, input),
{
    if input.has_amount {
        actions.push(PointerAction::FrameAmount { axis });
        match input.v120 {
            Some(v120) => {
                actions.push(PointerAction::FrameV120 { axis, v120 });
            },
            None => {},
        }
    }
    assert(actions@ =~= old(actions)@ + axis_part(axis, input));
}

/// Takes in a scroll event.
pub fn handle_pointer_axis(horizontal: AxisInput, vertical: AxisInput) -> (actions: Vec<
    PointerAction,
>)
    ensures
        actions@ == scroll_actions(horizontal, vertical),
{
    let mut actions: Vec<PointerAction> = Vec::new();
    push_axis(&mut actions, ScrollAxis::Horizontal, horizontal);
    push_axis(&mut actions, ScrollAxis::Vertical, vertical);
    actions.push(PointerAction::Axis);
    actions.push(PointerAction::Frame);
    assert(actions@ =~= scroll_actions(horizontal, vertical));
    actions
}

/// Whether `event` can be handled: the bounds of the output can be told where
/// they are asked for, and a step to the next workspace can be counted.
pub open spec fn input_fits(state: BlueState, desktop: Desktop, event: InputEvent) -> bool {
    match event {
        InputEvent::Keyboard { event } => shortcut(
            event,
            state.show_switcher,
        ) is NextWorkspace ==> state.workspace_count > 0 && state.current_workspace < usize::MAX,
        InputEvent::PointerMotion => bounds_fit(desktop.first_output_geometry),
        _ => true,
    }
}

/// Whether `reply` is what `event` leads to.
pub open spec fn is_input_reply(
    state: BlueState,
    desktop: Desktop,
    event: InputEvent,
    reply: InputReply,
) -> bool {
    match event {
        InputEvent::Keyboard { event } => reply matches InputReply::Key { reply }
            && reply.outcome.intercept == !(shortcut(event, state.show_switcher) is Unbound)
            && reply.outcome.action == key_action(state, desktop, event) && is_command_for(
            reply.outcome.action,
            reply.command,
        ),
        InputEvent::PointerMotion => reply == (InputReply::MoveWithin {
            bounds: bounds_of(desktop.first_output_geometry),
        }),
        InputEvent::PointerMotionAbsolute => reply == (InputReply::PlaceIn {
            size: size_of_output(desktop.first_output_geometry),
        }),
        InputEvent::PointerButton { pressed, under } => reply matches InputReply::Pointer {
            actions,
        } && actions@ == button_actions(pressed, under),
        InputEvent::PointerAxis { horizontal, vertical } => reply matches InputReply::Pointer {
            actions,
        } && actions@ == scroll_actions(horizontal, vertical),
        InputEvent::Other => reply == InputReply::Nothing,
    }
}

/// Takes in any input event. Every event counts as activity of the user, which
/// the caller records first. Only a key changes the state.
pub fn handle_input(state: &mut BlueState, desktop: &Desktop, event: InputEvent) -> (reply:
    InputReply)
    requires
        input_fits(*old(state), *desktop, event),
    ensures
        is_input_reply(*old(state), *desktop, event, reply),
        match event {
            InputEvent::Keyboard { event } => {
                &&& final(state).show_switcher == switcher_after(*old(state), event)
                &&& final(state).switcher_index == switcher_index_after(*old(state), event)
                &&& final(state).super_pressed == super_pressed_after(*old(state), event)
                &&& final(state).super_used == super_used_after(*old(state), event)
                &&& final(state).window_meta@ == meta_after(*old(state), *desktop, event)
                &&& *final(state) == (BlueState {
                    show_switcher: final(state).show_switcher,
                    switcher_index: final(state).switcher_index,
                    super_pressed: final(state).super_pressed,
                    super_used: final(state).super_used,
                    window_meta: final(state).window_meta,
                    ..*old(state)
                })
            },
            _ => *final(state) == *old(state),
        },
{
    match event {
        InputEvent::Keyboard { event } => InputReply::Key {
            reply: handle_keyboard(state, desktop, event),
        },
        InputEvent::PointerMotion => InputReply::MoveWithin {
            bounds: output_bounds(desktop.first_output_geometry),
        },
        InputEvent::PointerMotionAbsolute => InputReply::PlaceIn {
            size: absolute_size(desktop.first_output_geometry),
        },
        InputEvent::PointerButton { pressed, under } => InputReply::Pointer {
            actions: handle_pointer_button(pressed, under),
        },
        InputEvent::PointerAxis { horizontal, vertical } => InputReply::Pointer {
            actions: handle_pointer_axis(horizontal, vertical),
        },
        InputEvent::Other => InputReply::Nothing,
    }
}

/// The pointer has room to move, if the output has an extent.
pub proof fn bounds_are_ordered(output: Option<Rectangle>)
    requires
        bounds_fit(output),
        output matches Some(g) ==> g.size.w >= 0 && g.size.h >= 0,
    ensures
        bounds_of(output).min.x <= bounds_of(output).max.x,
        bounds_of(output).min.y <= bounds_of(output).max.y,
{
}

/// A button always reaches the client, after the focus has moved.
pub proof fn buttons_are_forwarded_last(pressed: bool, under: Option<WindowUnderPointer>)
    ensures
        ({
            let actions = button_actions(pressed, under);
            &&& actions.len() >= 2
            &&& actions[actions.len() - 2] == PointerAction::Button
            &&& actions.last() == PointerAction::Frame
            &&& !pressed ==> actions.len() == 2
        }),
{
}

/// The pointer can reach every corner of the output and no further. Where there is no
/// output, it has 1920 by 1080 from the origin on.
pub proof fn the_pointer_stays_on_the_output(output: Option<Rectangle>)
    requires
        bounds_fit(output),
    ensures
        ({
            let b = bounds_of(output);
            match output {
                Some(g) => {
                    &&& b.min.x == g.loc.x && b.min.y == g.loc.y
                    &&& b.max.x - b.min.x == g.size.w
                    &&& b.max.y - b.min.y == g.size.h
                },
                None => b.min == (Point { x: 0, y: 0 }) && b.max == (Point { x: 1920, y: 1080 }),
            }
        }),
{
}

/// An absolute position is a share of the same extent that the pointer can move over.
pub proof fn absolute_positions_share_the_bounds(output: Option<Rectangle>)
    requires
        bounds_fit(output),
    ensures
        size_of_output(output).w == bounds_of(output).max.x - bounds_of(output).min.x,
        size_of_output(output).h == bounds_of(output).max.y - bounds_of(output).min.y,
{
}

/// A press raises the window below the pointer, whatever it is, and moves the keyboard focus
/// to its surface, if it has one; below no window it takes the focus away. A release does
/// neither.
pub proof fn a_press_focuses_what_is_below(
    pressed: bool,
    under: Option<WindowUnderPointer>,
    window: u64,
    surface: Option<u64>,
)
    ensures
        ({
            let actions = button_actions(pressed, under);
            &&& actions.contains(PointerAction::Raise { window }) <==> pressed && (
            under matches Some(u) && u.window == window)
            &&& actions.contains(PointerAction::SetFocus { surface }) <==> pressed && (match under {
                Some(u) => surface is Some && u.surface == surface,
                None => surface is None,
            })
            &&& pressed && under is Some ==> actions[0] is Raise
            &&& actions.len() <= 4
        }),
{
    let actions = button_actions(pressed, under);
    if pressed {
        match under {
            Some(u) => {
                assert(actions[0] == (PointerAction::Raise { window: u.window }));
                if u.surface is Some {
                    assert(actions[1] == (PointerAction::SetFocus { surface: u.surface }));
                }
            },
            None => {
                assert(actions[0] == (PointerAction::SetFocus { surface: None }));
            },
        }
    }
}

/// A scroll frame holds the amount of each axis that the event has one for, and the wheel
/// steps exactly as the event gives them; it is sent once, and ends the group.
pub proof fn a_scroll_frame_holds_what_was_scrolled(
    horizontal: AxisInput,
    vertical: AxisInput,
    axis: ScrollAxis,
    v120: i32,
)
    ensures
        ({
            let actions = scroll_actions(horizontal, vertical);
            let input = if axis == ScrollAxis::Horizontal {
                horizontal
            } else {
                vertical
            };
            &&& actions.contains(PointerAction::FrameAmount { axis }) <==> input.has_amount
            &&& actions.contains(PointerAction::FrameV120 { axis, v120 }) <==> input.has_amount
                && input.v120 == Some(v120)
            &&& actions.len() >= 2
            &&& actions[actions.len() - 2] == PointerAction::Axis
            &&& actions.last() == PointerAction::Frame
            &&& actions.len() <= 6
        }),
{
    let actions = scroll_actions(horizontal, vertical);
    let first = axis_part(ScrollAxis::Horizontal, horizontal);
    let second = axis_part(ScrollAxis::Vertical, vertical);
    if horizontal.has_amount {
        assert(actions[0] == (PointerAction::FrameAmount { axis: ScrollAxis::Horizontal }));
        if horizontal.v120 is Some {
            assert(actions[1] == (PointerAction::FrameV120 {
                axis: ScrollAxis::Horizontal,
                v120: horizontal.v120->0,
            }));
        }
    }
    if vertical.has_amount {
        let n = first.len() as int;
        assert(actions[n] == (PointerAction::FrameAmount { axis: ScrollAxis::Vertical }));
        if vertical.v120 is Some {
            assert(actions[n + 1] == (PointerAction::FrameV120 {
                axis: ScrollAxis::Vertical,
                v120: vertical.v120->0,
            }));
        }
    }
}

/// Of one axis, the amount comes before the wheel steps.
pub proof fn amounts_come_before_wheel_steps(axis: ScrollAxis, input: AxisInput)
    ensures
        input.has_amount ==> axis_part(axis, input)[0] == (PointerAction::FrameAmount { axis }),
        !input.has_amount ==> axis_part(axis, input).len() == 0,
        input.has_amount && input.v120 is None ==> axis_part(axis, input).len() == 1,
{
}

/// Every kind of event is answered in its own way: a key by what the key does, a motion by
/// the bounds of the first output, a position by its size, a button and a scroll event by
/// what they lead to, and nothing else by anything.
pub proof fn every_event_is_answered(
    state: BlueState,
    desktop: Desktop,
    event: InputEvent,
    reply: InputReply,
)
    requires
        is_input_reply(state, desktop, event, reply),
    ensures
        match event {
            InputEvent::Keyboard { event } => reply matches InputReply::Key { reply }
                && reply.outcome.action == key_action(state, desktop, event) && (
            reply.outcome.intercept <==> !(shortcut(event, state.show_switcher) is Unbound))
                && is_command_for(reply.outcome.action, reply.command),
            InputEvent::PointerMotion => reply matches InputReply::MoveWithin { bounds } && bounds
                == bounds_of(desktop.first_output_geometry),
            InputEvent::PointerMotionAbsolute => reply matches InputReply::PlaceIn { size } && size
                == size_of_output(desktop.first_output_geometry),
            InputEvent::PointerButton { pressed, under } => reply matches InputReply::Pointer {
                actions,
            } && actions@ == button_actions(pressed, under),
            InputEvent::PointerAxis { horizontal, vertical } => reply matches InputReply::Pointer {
                actions,
            } && actions@ == scroll_actions(horizontal, vertical),
            InputEvent::Other => reply is Nothing,
        },
{
}

/// Every event can be handled on an output whose far corner is in the coordinate space, by a
/// compositor that has a workspace.
pub proof fn ordinary_events_can_be_handled(state: BlueState, desktop: Desktop, event: InputEvent)
    requires
        state.workspace_count > 0,
        state.current_workspace < state.workspace_count,
        desktop.first_output_geometry matches Some(g) ==> fits_i32(g.loc.x + g.size.w) && fits_i32(
            g.loc.y + g.size.h,
        ),
    ensures
        input_fits(state, desktop, event),
{
}

} // verus!
