//! Candidate windows of input methods.

use crate::geometry::{empty_rectangle, fits_i32, greater, Point, Rectangle};
use crate::ipc::messages::{CompositorMessage, CompositorMessageView};
use crate::search::first_match;
use crate::state::{window_with_surface, BlueState, Desktop};
use vstd::prelude::*;

verus! {

/// One tracked candidate window.
#[derive(Debug, Clone, Copy, PartialEq, Eq, Structural)]
pub struct TrackedImePopup {
    pub popup: u64,
}

/// A layer surface that is mapped on some output.
#[derive(Debug, Clone, Copy, PartialEq, Eq, Structural)]
pub struct MappedLayer {
    pub surface: u64,
    /// Where it is on its output.
    pub geometry: Option<Rectangle>,
    /// Where its output is.
    pub output_location: Point,
}

/// Where a candidate window goes.
#[derive(Debug, Clone, PartialEq, Eq)]
pub struct PopupPlacement {
    /// Relative to its parent.
    pub location: Point,
    /// What the shell is told.
    pub message: CompositorMessage,
}

/// What is read of a candidate window when it is drawn.
#[derive(Debug, Clone, Copy, PartialEq, Eq, Structural)]
pub struct PopupOnScreen {
    pub popup: u64,
    pub alive: bool,
    pub parent: Option<Rectangle>,
    /// Relative to the parent.
    pub location: Point,
}

/// A candidate window and where it is drawn.
#[derive(Debug, Clone, Copy, PartialEq, Eq, Structural)]
pub struct PopupElement {
    pub popup: u64,
    pub location: Point,
}

/// Tells the layers of `surface` that have a place on their output.
pub open spec fn is_placed_layer(surface: u64) -> spec_fn(MappedLayer) -> bool {
    |l: MappedLayer| l.surface == surface && l.geometry is Some
}

/// Whether a layer's place in the global space can be told.
pub open spec fn layer_fits(layer: MappedLayer) -> bool {
    layer.geometry matches Some(g) ==> fits_i32(layer.output_location.x + g.loc.x) && fits_i32(
        layer.output_location.y + g.loc.y,
    )
}

/// Where a layer is in the global space.
pub open spec fn layer_geometry(layer: MappedLayer) -> Rectangle {
    match layer.geometry {
        Some(g) => Rectangle {
            loc: Point {
                x: (layer.output_location.x + g.loc.x) as i32,
                y: (layer.output_location.y + g.loc.y) as i32,
            },
            size: g.size,
        },
        None => empty_rectangle(),
    }
}

/// Where the surface `parent` is in the global space: that of its window, or that of
/// a layer. One that is neither counts as empty, at the origin.
pub open spec fn geometry_of_parent(
    desktop: Desktop,
    layers: Seq<MappedLayer>,
    parent: Option<u64>,
) -> Rectangle {
    match parent {
        Some(surface) => match window_with_surface(desktop, surface) {
            Some(window) => match window.geometry {
                Some(g) => g,
                None => empty_rectangle(),
            },
            None => match first_match(layers, is_placed_layer(surface)) {
                Some(layer) => layer_geometry(layer),
                None => empty_rectangle(),
            },
        },
        None => empty_rectangle(),
    }
}

/// The geometry of a popup's parent, empty at the origin where it has none.
pub open spec fn parent_or_origin(parent: Option<Rectangle>) -> Rectangle {
    match parent {
        Some(g) => g,
        None => empty_rectangle(),
    }
}

/// Whether the place of a candidate window can be told.
pub open spec fn placement_fits(parent: Option<Rectangle>, text: Rectangle) -> bool {
    let at = parent_or_origin(parent).loc;
    &&& fits_i32(at.x + text.loc.x)
    &&& fits_i32(at.y + text.loc.y)
    &&& fits_i32(at.y + text.loc.y + text.size.h)
    &&& fits_i32(text.loc.y + text.size.h)
}

/// Where a candidate window is in the global space: at the bottom left of the text
/// that is typed.
pub open spec fn popup_position(parent: Option<Rectangle>, text: Rectangle) -> Point {
    let at = parent_or_origin(parent).loc;
    Point { x: (at.x + text.loc.x) as i32, y: (at.y + text.loc.y + text.size.h) as i32 }
}

/// Where a candidate window is, relative to its parent.
pub open spec fn popup_offset(text: Rectangle) -> Point {
    Point { x: text.loc.x, y: (text.loc.y + text.size.h) as i32 }
}

/// What the shell is told of a candidate window that is shown.
pub open spec fn shown_message(parent: Option<Rectangle>, text: Rectangle) -> CompositorMessageView {
    CompositorMessageView::ImeCandidateWindow {
        visible: true,
        x: popup_position(parent, text).x as int,
        y: popup_position(parent, text).y as int,
        width: greater(text.size.w as int, 1),
        height: greater(text.size.h as int, 1),
    }
}

/// What the shell is told of a candidate window that is gone.
pub open spec fn hidden_message() -> CompositorMessageView {
    CompositorMessageView::ImeCandidateWindow { visible: false, x: 0, y: 0, width: 0, height: 0 }
}

/// Tells all other popups.
pub open spec fn is_other_popup(popup: u64) -> spec_fn(TrackedImePopup) -> bool {
    |t: TrackedImePopup| t.popup != popup
}

/// Tells the popups that still exist.
pub open spec fn is_alive() -> spec_fn(PopupOnScreen) -> bool {
    |p: PopupOnScreen| p.alive
}

/// Whether the place where a popup is drawn can be told.
pub open spec fn draw_fits(popup: PopupOnScreen) -> bool {
    let at = parent_or_origin(popup.parent).loc;
    fits_i32(at.x + popup.location.x) && fits_i32(at.y + popup.location.y)
}

/// A popup at the place where it is drawn.
pub open spec fn drawn(popup: PopupOnScreen) -> PopupElement {
    let at = parent_or_origin(popup.parent).loc;
    PopupElement {
        popup: popup.popup,
        location: Point {
            x: (at.x + popup.location.x) as i32,
            y: (at.y + popup.location.y) as i32,
        },
    }
}

/// Finds where the surface that a candidate window belongs to is.
pub fn parent_geometry(desktop: &Desktop, layers: &Vec<MappedLayer>, parent: Option<u64>) -> (geometry:
    Rectangle)
    requires
        forall|i: int| 0 <= i < layers@.len() ==> layer_fits(#[trigger] layers@[i]),
    ensures
        geometry == geometry_of_parent(*desktop, layers@, parent),
{
    let surface: u64 = match parent {
        Some(surface) => surface,
        None => {
            return Rectangle::default();
        },
    };
    match desktop.window_by_surface(surface) {
        Some(window) => {
            return match window.geometry {
                Some(g) => g,
                None => Rectangle::default(),
            };
        },
        None => {},
    }
    let ghost p = is_placed_layer(surface);
    for i in 0..layers.len()
        invariant
            p == is_placed_layer(surface),
            parent == Some(surface),
            window_with_surface(*desktop, surface) is None,
            forall|j: int| 0 <= j < layers@.len() ==> layer_fits(#[trigger] layers@[j]),
            forall|j: int| 0 <= j < i ==> !p(#[trigger] layers@[j]),
    {
        let layer = layers[i];
        if layer.surface == surface {
            match layer.geometry {
                Some(g) => {
                    proof {
                        crate::search::first_match_at(layers@, p, i as int);
                        assert(layer_fits(layers@[i as int]));
                    }
                    return Rectangle {
                        loc: Point {
                            x: layer.output_location.x + g.loc.x,
                            y: layer.output_location.y + g.loc.y,
                        },
                        size: g.size,
                    };
                },
                None => {},
            }
        }
    }
    proof {
        crate::search::first_match_none(layers@, p);
    }
    Rectangle::default()
}

fn place_popup(parent: Option<Rectangle>, text: Rectangle) -> (placement: PopupPlacement)
    requires
        placement_fits(parent, text),
    ensures
        placement.location == popup_offset(text),
        placement.message@ == shown_message(parent, text),
{
    let at = match parent {
        Some(g) => g.loc,
        None => Rectangle::default().loc,
    };
    let x: i32 = at.x + text.loc.x;
    let y: i32 = at.y + text.loc.y + text.size.h;
    let width: i32 = if text.size.w >= 1 {
        text.size.w
    } else {
        1
    };
    let height: i32 = if text.size.h >= 1 {
        text.size.h
    } else {
        1
    };
    PopupPlacement {
        location: Point { x: x - at.x, y: y - at.y },
        message: CompositorMessage::ImeCandidateWindow {
            visible: true,
            x,
            y,
            width: width as u32,
            height: height as u32,
        },
    }
}

/// An input method opens a candidate window below the text that is typed. `parent`
/// is where the window of the text is, `text` where the text is in it.
pub fn popup_created(
    state: &mut BlueState,
    popup: u64,
    parent: Option<Rectangle>,
    text: Rectangle,
) -> (placement: PopupPlacement)
    requires
        placement_fits(parent, text),
    ensures
        placement.location == popup_offset(text),
        placement.message@ == shown_message(parent, text),
        final(state).input_method_popups@ == old(state).input_method_popups@.push(
            TrackedImePopup { popup },
        ),
        final(state).input_method_popups@.last().popup == popup,
        final(state).input_method_popups@.len() == old(state).input_method_popups@.len() + 1,
        *final(state) == (BlueState {
            input_method_popups: final(state).input_method_popups,
            ..*old(state)
        }),
{
    let placement = place_popup(parent, text);
    state.input_method_popups.push(TrackedImePopup { popup });
    placement
}

/// A candidate window is gone.
pub fn popup_dismissed(state: &mut BlueState, popup: u64) -> (message: CompositorMessage)
    ensures
        message@ == hidden_message(),
        final(state).input_method_popups@ == old(state).input_method_popups@.filter(
            is_other_popup(popup),
        ),
        forall|t: TrackedImePopup| #[trigger]
            final(state).input_method_popups@.contains(t) <==> old(
                state,
            ).input_method_popups@.contains(t) && t.popup != popup,
        message matches CompositorMessage::ImeCandidateWindow { visible, .. } && !visible,
        *final(state) == (BlueState {
            input_method_popups: final(state).input_method_popups,
            ..*old(state)
        }),
{
    let ghost all = state.input_method_popups@;
    let mut kept: Vec<TrackedImePopup> = Vec::new();
    assert(all.take(0).filter(is_other_popup(popup)) =~= kept@) by {
        reveal(Seq::filter);
    }
    for i in 0..state.input_method_popups.len()
        invariant
            all == state.input_method_popups@,
            kept@ == all.take(i as int).filter(is_other_popup(popup)),
    {
        proof {
            crate::search::filter_step(all, is_other_popup(popup), i as int);
        }
        if state.input_method_popups[i].popup != popup {
            kept.push(state.input_method_popups[i]);
        }
    }
    assert(all.take(all.len() as int) =~= all);
    assert forall|t: TrackedImePopup| #[trigger] kept@.contains(t) <==> all.contains(t) && t.popup
        != popup by {
        dismissing_keeps_other_popups(all, popup, t);
    }
    state.input_method_popups = kept;
    CompositorMessage::ImeCandidateWindow { visible: false, x: 0, y: 0, width: 0, height: 0 }
}

/// The text has moved, and the candidate window follows it.
pub fn popup_repositioned(parent: Option<Rectangle>, text: Rectangle) -> (placement: PopupPlacement)
    requires
        placement_fits(parent, text),
    ensures
        placement.location == popup_offset(text),
        placement.message@ == shown_message(parent, text),
{
    place_popup(parent, text)
}

/// Finds where each candidate window that still exists is drawn.
pub fn render_elements(popups: &Vec<PopupOnScreen>) -> (elements: Vec<PopupElement>)
    requires
        forall|i: int|
            0 <= i < popups@.len() && (#[trigger] popups@[i]).alive ==> draw_fits(popups@[i]),
    ensures
        elements@ == popups@.filter(is_alive()).map_values(|p: PopupOnScreen| drawn(p)),
{
    let ghost all = popups@;
    let mut elements: Vec<PopupElement> = Vec::new();
    proof {
        reveal(Seq::filter);
        assert(elements@ =~= all.take(0).filter(is_alive()).map_values(
            |p: PopupOnScreen| drawn(p),
        ));
    }
    for i in 0..popups.len()
        invariant
            all == popups@,
            forall|j: int| 0 <= j < all.len() && (#[trigger] all[j]).alive ==> draw_fits(all[j]),
            elements@ == all.take(i as int).filter(is_alive()).map_values(
                |p: PopupOnScreen| drawn(p),
            ),
    {
        proof {
            crate::search::filter_step(all, is_alive(), i as int);
        }
        let popup = popups[i];
        if popup.alive {
            assert(draw_fits(all[i as int]));
            let at = match popup.parent {
                Some(g) => g.loc,
                None => Rectangle::default().loc,
            };
            let ghost shown = all.take(i as int).filter(is_alive());
            let ghost before = elements@;
            elements.push(
                PopupElement {
                    popup: popup.popup,
                    location: Point { x: at.x + popup.location.x, y: at.y + popup.location.y },
                },
            );
            assert(elements@ =~= before.push(drawn(all[i as int])));
            assert(shown.push(all[i as int]).map_values(|p: PopupOnScreen| drawn(p))
                =~= shown.map_values(|p: PopupOnScreen| drawn(p)).push(drawn(all[i as int])));
        }
    }
    assert(all.take(all.len() as int) =~= all);
    elements
}

/// A candidate window is drawn where the shell was told that it is, while its parent
/// stays.
pub proof fn popups_are_drawn_where_announced(
    popup: u64,
    parent: Option<Rectangle>,
    text: Rectangle,
)
    requires
        placement_fits(parent, text),
    ensures
        ({
            let location = popup_offset(text);
            let on_screen = PopupOnScreen { popup, alive: true, parent, location };
            &&& draw_fits(on_screen)
            &&& drawn(on_screen).location == popup_position(parent, text)
        }),
{
}

/// Dismissing a candidate window undoes opening it.
pub proof fn dismissing_undoes_opening(popups: Seq<TrackedImePopup>, popup: u64)
    requires
        forall|i: int| 0 <= i < popups.len() ==> (#[trigger] popups[i]).popup != popup,
    ensures
        popups.push(TrackedImePopup { popup }).filter(is_other_popup(popup)) == popups,
{
    reveal(Seq::filter);
    assert(popups.push(TrackedImePopup { popup }).drop_last() =~= popups);
    crate::search::filter_of_matches(popups, is_other_popup(popup));
}

/// The candidate window does not cover the text: it begins where the text ends.
pub proof fn popups_are_below_the_text(parent: Option<Rectangle>, text: Rectangle)
    requires
        placement_fits(parent, text),
    ensures
        popup_position(parent, text).y == parent_or_origin(parent).loc.y + text.loc.y + text.size.h,
        popup_position(parent, text).x == parent_or_origin(parent).loc.x + text.loc.x,
{
}

/// A surface is where its window is. One that is no window but a placed layer is where the
/// layer is on its output, counted from where the output is, and as large as the layer. One
/// that is neither, and a window without a place, count as empty at the origin.
pub proof fn parents_are_where_they_are_shown(
    desktop: Desktop,
    layers: Seq<MappedLayer>,
    surface: u64,
    k: int,
)
    requires
        forall|i: int| 0 <= i < layers.len() ==> layer_fits(#[trigger] layers[i]),
    ensures
        ({
            let g = geometry_of_parent(desktop, layers, Some(surface));
            let nowhere = Rectangle {
                loc: Point { x: 0, y: 0 },
                size: crate::geometry::Size { w: 0, h: 0 },
            };
            match window_with_surface(desktop, surface) {
                Some(window) => match window.geometry {
                    Some(at) => g == at,
                    None => g == nowhere,
                },
                None => {
                    &&& 0 <= k < layers.len() && layers[k].surface == surface
                        && layers[k].geometry is Some && (forall|i: int|
                        0 <= i < k ==> !((#[trigger] layers[i]).surface == surface
                            && layers[i].geometry is Some)) ==> {
                        let on_output = layers[k].geometry->0;
                        &&& g.loc.x - on_output.loc.x == layers[k].output_location.x
                        &&& g.loc.y - on_output.loc.y == layers[k].output_location.y
                        &&& g.size == on_output.size
                    }
                    &&& (forall|i: int|
                        0 <= i < layers.len() ==> !((#[trigger] layers[i]).surface == surface
                            && layers[i].geometry is Some)) ==> g == nowhere
                },
            }
        }),
        geometry_of_parent(desktop, layers, None).loc == (Point { x: 0, y: 0 }),
        geometry_of_parent(desktop, layers, None).size == (crate::geometry::Size { w: 0, h: 0 }),
{
    let p = is_placed_layer(surface);
    if 0 <= k < layers.len() && layers[k].surface == surface && layers[k].geometry is Some && (
    forall|i: int|
        0 <= i < k ==> !((#[trigger] layers[i]).surface == surface && layers[i].geometry is Some)) {
        crate::search::first_match_at(layers, p, k);
        assert(layer_fits(layers[k]));
    }
    if forall|i: int|
        0 <= i < layers.len() ==> !((#[trigger] layers[i]).surface == surface
            && layers[i].geometry is Some) {
        crate::search::first_match_none(layers, p);
    }
}

/// The shell is told of a candidate window that is shown, where it is, and how large the
/// text is, which is at least one pixel each way. Of one that is gone it is told nothing else.
pub proof fn the_shell_is_told_of_candidate_windows(parent: Option<Rectangle>, text: Rectangle)
    requires
        placement_fits(parent, text),
    ensures
        shown_message(parent, text) matches CompositorMessageView::ImeCandidateWindow {
            visible,
            x,
            y,
            width,
            height,
        } && {
            &&& visible
            &&& x == popup_position(parent, text).x && y == popup_position(parent, text).y
            &&& text.size.w >= 1 ==> width == text.size.w
            &&& text.size.h >= 1 ==> height == text.size.h
            &&& text.size.w < 1 ==> width == 1
            &&& text.size.h < 1 ==> height == 1
        },
        hidden_message() matches CompositorMessageView::ImeCandidateWindow {
            visible,
            x,
            y,
            width,
            height,
        } && !visible && x == 0 && y == 0 && width == 0 && height == 0,
{
}

/// A candidate window is placed below the text, from the left of it, counted from the window
/// of the text.
pub proof fn popups_are_placed_relative_to_their_parent(
    parent: Option<Rectangle>,
    text: Rectangle,
)
    requires
        placement_fits(parent, text),
    ensures
        popup_offset(text).x == text.loc.x,
        popup_offset(text).y == text.loc.y + text.size.h,
        popup_position(parent, text).x - popup_offset(text).x == match parent {
            Some(g) => g.loc.x as int,
            None => 0,
        },
        popup_position(parent, text).y - popup_offset(text).y == match parent {
            Some(g) => g.loc.y as int,
            None => 0,
        },
{
}

/// A popup is drawn as far from its parent as it is placed, and only while it exists.
pub proof fn living_popups_are_drawn(popups: Seq<PopupOnScreen>, popup: PopupOnScreen)
    requires
        draw_fits(popup),
    ensures
        drawn(popup).popup == popup.popup,
        drawn(popup).location.x - popup.location.x == match popup.parent {
            Some(g) => g.loc.x as int,
            None => 0,
        },
        drawn(popup).location.y - popup.location.y == match popup.parent {
            Some(g) => g.loc.y as int,
            None => 0,
        },
        popups.filter(is_alive()).contains(popup) <==> popups.contains(popup) && popup.alive,
{
    crate::search::filter_membership(popups, is_alive(), popup);
}

/// Dismissing a popup keeps every other one.
pub proof fn dismissing_keeps_other_popups(
    popups: Seq<TrackedImePopup>,
    popup: u64,
    other: TrackedImePopup,
)
    ensures
        popups.filter(is_other_popup(popup)).contains(other) <==> popups.contains(other)
            && other.popup != popup,
{
    crate::search::filter_membership(popups, is_other_popup(popup), other);
}

} // verus!
