//! The course of one frame.

use crate::geometry::{Point, Rectangle};
use vstd::prelude::*;

verus! {

/// A step of a frame on the hardware.
#[derive(Debug, Clone, Copy, PartialEq, Eq, Structural)]
pub enum FrameStep {
    /// Get a free buffer of the surface.
    AcquireBuffer,
    /// Make the buffer the target of the renderer.
    BindTarget,
    Draw,
    /// Copy the frame to those who wait for it, while it is still the target.
    ServeCaptures,
    /// Show the buffer.
    QueueBuffer,
    Finished,
}

/// A step of a frame in a window.
#[derive(Debug, Clone, Copy, PartialEq, Eq, Structural)]
pub enum WindowFrameStep {
    /// Make the window the target, to find out what there is to draw.
    CollectElements,
    /// Make the window the target again, to draw on it.
    BindTarget,
    Draw,
    /// Copy the frame to those who wait for it, while it is still the target.
    ServeCaptures,
    /// Show the window.
    Submit,
    /// Ask for the next frame.
    RequestRedraw,
    Finished,
}

/// A layer surface of one output.
#[derive(Debug, Clone, Copy, PartialEq, Eq, Structural)]
pub struct LayerOnOutput {
    pub surface: u64,
    /// Where it is on the output, if it is placed.
    pub geometry: Option<Rectangle>,
}

/// A layer surface and where it is drawn on its output.
#[derive(Debug, Clone, Copy, PartialEq, Eq, Structural)]
pub struct LayerElement {
    pub surface: u64,
    pub location: Point,
}

/// The step after `step`, which went well or not. A frame that could not be drawn is not
/// shown.
pub open spec fn step_after(step: FrameStep, ok: bool) -> FrameStep {
    match step {
        FrameStep::AcquireBuffer => if ok {
            FrameStep::BindTarget
        } else {
            FrameStep::Finished
        },
        FrameStep::BindTarget => if ok {
            FrameStep::Draw
        } else {
            FrameStep::Finished
        },
        FrameStep::Draw => if ok {
            FrameStep::ServeCaptures
        } else {
            FrameStep::Finished
        },
        FrameStep::ServeCaptures => FrameStep::QueueBuffer,
        FrameStep::QueueBuffer => FrameStep::Finished,
        FrameStep::Finished => FrameStep::Finished,
    }
}

/// The step after `step`, which went well or not. Once the window is the target, a failure
/// does not stop the frame.
pub open spec fn window_step_after(step: WindowFrameStep, ok: bool) -> WindowFrameStep {
    match step {
        WindowFrameStep::CollectElements => if ok {
            WindowFrameStep::BindTarget
        } else {
            WindowFrameStep::Finished
        },
        WindowFrameStep::BindTarget => if ok {
            WindowFrameStep::Draw
        } else {
            WindowFrameStep::Finished
        },
        WindowFrameStep::Draw => if ok {
            WindowFrameStep::ServeCaptures
        } else {
            WindowFrameStep::Submit
        },
        WindowFrameStep::ServeCaptures => WindowFrameStep::Submit,
        WindowFrameStep::Submit => WindowFrameStep::RequestRedraw,
        WindowFrameStep::RequestRedraw => WindowFrameStep::Finished,
        WindowFrameStep::Finished => WindowFrameStep::Finished,
    }
}

/// Tells the layers that are placed.
pub open spec fn is_placed() -> spec_fn(LayerOnOutput) -> bool {
    |l: LayerOnOutput| l.geometry is Some
}

/// A placed layer, where it is drawn.
pub open spec fn layer_element(layer: LayerOnOutput) -> LayerElement {
    LayerElement { surface: layer.surface, location: layer.geometry->0.loc }
}

impl FrameStep {
    /// Goes on to the next step.
    pub fn next(self, ok: bool) -> (next: Self)
        ensures
            next == step_after(self, ok),
    {
        match self {
            FrameStep::AcquireBuffer if ok => FrameStep::BindTarget,
            FrameStep::BindTarget if ok => FrameStep::Draw,
            FrameStep::Draw if ok => FrameStep::ServeCaptures,
            FrameStep::ServeCaptures => FrameStep::QueueBuffer,
            _ => FrameStep::Finished,
        }
    }
}

impl WindowFrameStep {
    /// Goes on to the next step.
    pub fn next(self, ok: bool) -> (next: Self)
        ensures
            next == window_step_after(self, ok),
    {
        match self {
            WindowFrameStep::CollectElements if ok => WindowFrameStep::BindTarget,
            WindowFrameStep::BindTarget if ok => WindowFrameStep::Draw,
            WindowFrameStep::Draw if ok => WindowFrameStep::ServeCaptures,
            WindowFrameStep::Draw | WindowFrameStep::ServeCaptures => WindowFrameStep::Submit,
            WindowFrameStep::Submit => WindowFrameStep::RequestRedraw,
            _ => WindowFrameStep::Finished,
        }
    }
}

/// Finds where the layers of an output are drawn. One that is not placed is not drawn.
pub fn layer_shell_elements(layers: &Vec<LayerOnOutput>) -> (elements: Vec<LayerElement>)
    ensures
        elements@ == layers@.filter(is_placed()).map_values(|l: LayerOnOutput| layer_element(l)),
{
    let ghost all = layers@;
    let ghost f = |l: LayerOnOutput| layer_element(l);
    let mut elements: Vec<LayerElement> = Vec::new();
    proof {
        reveal(Seq::filter);
        assert(elements@ =~= all.take(0).filter(is_placed()).map_values(f));
    }
    for i in 0..layers.len()
        invariant
            all == layers@,
            f == (|l: LayerOnOutput| layer_element(l)),
            elements@ == all.take(i as int).filter(is_placed()).map_values(f),
    {
        proof {
            crate::search::filter_step(all, is_placed(), i as int);
        }
        match layers[i].geometry {
            Some(geometry) => {
                let ghost drawn = all.take(i as int).filter(is_placed());
                elements.push(
                    LayerElement { surface: layers[i].surface, location: geometry.loc },
                );
                assert(drawn.push(all[i as int]).map_values(f) =~= drawn.map_values(f).push(
                    layer_element(all[i as int]),
                ));
            },
            None => {},
        }
    }
    assert(all.take(all.len() as int) =~= all);
    elements
}

/// The step that a frame has come to, after some steps went well or not.
pub open spec fn frame_after(outcomes: Seq<bool>) -> FrameStep
    decreases outcomes.len(),
{
    if outcomes.len() == 0 {
        FrameStep::AcquireBuffer
    } else {
        step_after(frame_after(outcomes.drop_last()), outcomes.last())
    }
}

/// The step that a frame in a window has come to, after some steps went well or not.
pub open spec fn window_frame_after(outcomes: Seq<bool>) -> WindowFrameStep
    decreases outcomes.len(),
{
    if outcomes.len() == 0 {
        WindowFrameStep::CollectElements
    } else {
        window_step_after(window_frame_after(outcomes.drop_last()), outcomes.last())
    }
}

proof fn frame_steps_by_outcomes(outcomes: Seq<bool>)
    ensures
        frame_after(outcomes) == FrameStep::AcquireBuffer ==> outcomes.len() == 0,
        frame_after(outcomes) == FrameStep::BindTarget ==> outcomes.len() == 1 && outcomes[0],
        frame_after(outcomes) == FrameStep::Draw ==> outcomes.len() == 2 && outcomes[0]
            && outcomes[1],
        frame_after(outcomes) == FrameStep::ServeCaptures ==> outcomes.len() == 3 && outcomes[0]
            && outcomes[1] && outcomes[2],
        frame_after(outcomes) == FrameStep::QueueBuffer ==> outcomes.len() == 4 && outcomes[0]
            && outcomes[1] && outcomes[2],
        outcomes.len() > 4 ==> frame_after(outcomes) == FrameStep::Finished,
    decreases outcomes.len(),
{
    if outcomes.len() > 0 {
        frame_steps_by_outcomes(outcomes.drop_last());
    }
}

/// A buffer is shown, and captures are served, only if a buffer was acquired, bound and
/// drawn to. Every frame is over after at most five steps.
pub proof fn only_drawn_frames_are_shown(outcomes: Seq<bool>)
    ensures
        frame_after(outcomes) == FrameStep::QueueBuffer || frame_after(outcomes)
            == FrameStep::ServeCaptures ==> outcomes.len() >= 3 && outcomes[0] && outcomes[1]
            && outcomes[2],
        outcomes.len() >= 5 ==> frame_after(outcomes) == FrameStep::Finished,
{
    frame_steps_by_outcomes(outcomes);
}

/// A window that could be made the target twice gets its next frame, whatever else went
/// wrong. Captures are served only from a frame that was drawn.
pub proof fn a_bound_window_is_redrawn(served: bool, submitted: bool)
    ensures
        window_frame_after(seq![true, true, true]) == WindowFrameStep::ServeCaptures,
        window_frame_after(seq![true, true, true, served, submitted])
            == WindowFrameStep::RequestRedraw,
        window_frame_after(seq![true, true, false]) == WindowFrameStep::Submit,
        window_frame_after(seq![true, true, false, submitted]) == WindowFrameStep::RequestRedraw,
{
    let good = seq![true, true, true];
    let bad = seq![true, true, false];
    let bound = seq![true, true];
    assert(seq![true, true, true, served, submitted].drop_last() =~= good.push(served));
    assert(good.push(served).drop_last() =~= good);
    assert(seq![true, true, false, submitted].drop_last() =~= bad);
    assert(good.drop_last() =~= bound && bad.drop_last() =~= bound);
    assert(bound.drop_last() =~= seq![true]);
    assert(seq![true].drop_last() =~= Seq::<bool>::empty());
    reveal_with_fuel(window_frame_after, 6);
}

/// A frame goes on as long as it could be acquired, bound and drawn, and is over as soon as
/// one of these went wrong. Once drawn it is served and shown, whatever came of serving it.
pub proof fn a_frame_goes_its_course(outcomes: Seq<bool>)
    ensures
        ({
            let n = outcomes.len();
            let failed = (n > 0 && !outcomes[0]) || (n > 1 && !outcomes[1]) || (n > 2
                && !outcomes[2]);
            let step = frame_after(outcomes);
            &&& failed ==> step == FrameStep::Finished
            &&& !failed && n == 0 ==> step == FrameStep::AcquireBuffer
            &&& !failed && n == 1 ==> step == FrameStep::BindTarget
            &&& !failed && n == 2 ==> step == FrameStep::Draw
            &&& !failed && n == 3 ==> step == FrameStep::ServeCaptures
            &&& !failed && n == 4 ==> step == FrameStep::QueueBuffer
            &&& n > 4 ==> step == FrameStep::Finished
        }),
    decreases outcomes.len(),
{
    if outcomes.len() > 0 {
        a_frame_goes_its_course(outcomes.drop_last());
    }
}

/// A frame in a window is over where the window could not be made the target. Otherwise it
/// is shown and the next one asked for; it is served in between exactly if it was drawn.
pub proof fn a_window_frame_goes_its_course(outcomes: Seq<bool>)
    ensures
        ({
            let n = outcomes.len();
            let failed = (n > 0 && !outcomes[0]) || (n > 1 && !outcomes[1]);
            let step = window_frame_after(outcomes);
            &&& failed ==> step == WindowFrameStep::Finished
            &&& !failed && n == 0 ==> step == WindowFrameStep::CollectElements
            &&& !failed && n == 1 ==> step == WindowFrameStep::BindTarget
            &&& !failed && n == 2 ==> step == WindowFrameStep::Draw
            &&& !failed && n > 2 && outcomes[2] ==> {
                &&& n == 3 ==> step == WindowFrameStep::ServeCaptures
                &&& n == 4 ==> step == WindowFrameStep::Submit
                &&& n == 5 ==> step == WindowFrameStep::RequestRedraw
                &&& n > 5 ==> step == WindowFrameStep::Finished
            }
            &&& !failed && n > 2 && !outcomes[2] ==> {
                &&& n == 3 ==> step == WindowFrameStep::Submit
                &&& n == 4 ==> step == WindowFrameStep::RequestRedraw
                &&& n > 4 ==> step == WindowFrameStep::Finished
            }
        }),
    decreases outcomes.len(),
{
    if outcomes.len() > 0 {
        a_window_frame_goes_its_course(outcomes.drop_last());
    }
}

/// A layer is drawn exactly if it is placed, and where it is placed.
pub proof fn placed_layers_are_drawn_in_place(layers: Seq<LayerOnOutput>, layer: LayerOnOutput)
    ensures
        layers.filter(is_placed()).contains(layer) <==> layers.contains(layer)
            && layer.geometry is Some,
        layer.geometry matches Some(g) ==> layer_element(layer).location == g.loc,
        layer_element(layer).surface == layer.surface,
{
    crate::search::filter_membership(layers, is_placed(), layer);
}

} // verus!
