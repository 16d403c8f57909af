//! Moving and resizing a window with the pointer.

use crate::geometry::{fits_i32, greater, origin, Point, Rectangle, Size};
use crate::state::WindowKind;
use vstd::prelude::*;
use wayland_protocols::xdg::shell::server::xdg_toplevel::ResizeEdge;

verus! {

/// The edge or corner that an xdg client starts to resize a window at.
#[verifier::external_type_specification]
pub struct ExResizeEdge(ResizeEdge);

/// The smallest width and height that a window can be dragged to.
pub const MIN_WINDOW_SIZE: i32 = 32;

/// The edges of a window that follow the pointer.
#[derive(Debug, Clone, Copy, PartialEq, Eq, Structural)]
pub struct ResizeEdges {
    pub top: bool,
    pub bottom: bool,
    pub left: bool,
    pub right: bool,
}

/// The edge or corner that an X11 client starts to resize a window at.
#[derive(Debug, Clone, Copy, PartialEq, Eq, Structural)]
pub enum X11ResizeEdge {
    Top,
    Bottom,
    Left,
    Right,
    TopLeft,
    TopRight,
    BottomLeft,
    BottomRight,
    /// An edge that is not known here.
    Unknown,
}

/// A window that is moved with the pointer.
#[derive(Debug, Clone, Copy, PartialEq, Eq, Structural)]
pub struct MoveGrab {
    pub window: u64,
    pub initial_window_location: Point,
}

/// A window that is resized with the pointer.
#[derive(Debug, Clone, Copy, PartialEq, Eq, Structural)]
pub struct ResizeGrab {
    pub window: u64,
    pub edges: ResizeEdges,
    pub initial_window_location: Point,
    pub initial_window_size: Size,
}

/// One thing to carry out while a grab is active. A list of actions is carried
/// out in order.
#[derive(Debug, Clone, Copy, PartialEq, Eq, Structural)]
pub enum GrabAction {
    /// Forward the motion, with no surface in focus.
    ForwardMotion,
    /// Forward the button.
    ForwardButton,
    /// End the grab and restore the focus.
    Unset,
    MapElement { window: u64, location: Point, activate: bool },
    /// Set the size of the toplevel and send a configure.
    ConfigureSize { window: u64, size: Size },
    /// Configure the X11 window; a failure is only worth a warning.
    ConfigureX11 { window: u64, geometry: Rectangle },
}

/// No edge.
pub open spec fn no_edges() -> ResizeEdges {
    ResizeEdges { top: false, bottom: false, left: false, right: false }
}

impl Default for ResizeEdges {
    fn default() -> (edges: Self)
        ensures
            edges == no_edges(),
    {
        ResizeEdges { top: false, bottom: false, left: false, right: false }
    }
}

/// The edges that move when an xdg client resizes at `edge`.
pub open spec fn xdg_edges(edge: ResizeEdge) -> ResizeEdges {
    match edge {
        ResizeEdge::Top => ResizeEdges { top: true, ..no_edges() },
        ResizeEdge::Bottom => ResizeEdges { bottom: true, ..no_edges() },
        ResizeEdge::Left => ResizeEdges { left: true, ..no_edges() },
        ResizeEdge::Right => ResizeEdges { right: true, ..no_edges() },
        ResizeEdge::TopLeft => ResizeEdges { top: true, left: true, ..no_edges() },
        ResizeEdge::TopRight => ResizeEdges { top: true, right: true, ..no_edges() },
        ResizeEdge::BottomLeft => ResizeEdges { bottom: true, left: true, ..no_edges() },
        ResizeEdge::BottomRight => ResizeEdges { bottom: true, right: true, ..no_edges() },
        _ => no_edges(),
    }
}

/// The edges that move when an X11 client resizes at `edge`. An edge that is not
/// known counts as the bottom right corner.
pub open spec fn x11_edges(edge: X11ResizeEdge) -> ResizeEdges {
    match edge {
        X11ResizeEdge::Top => ResizeEdges { top: true, ..no_edges() },
        X11ResizeEdge::Bottom => ResizeEdges { bottom: true, ..no_edges() },
        X11ResizeEdge::Left => ResizeEdges { left: true, ..no_edges() },
        X11ResizeEdge::Right => ResizeEdges { right: true, ..no_edges() },
        X11ResizeEdge::TopLeft => ResizeEdges { top: true, left: true, ..no_edges() },
        X11ResizeEdge::TopRight => ResizeEdges { top: true, right: true, ..no_edges() },
        X11ResizeEdge::BottomLeft => ResizeEdges { bottom: true, left: true, ..no_edges() },
        X11ResizeEdge::BottomRight => ResizeEdges { bottom: true, right: true, ..no_edges() },
        X11ResizeEdge::Unknown => ResizeEdges { bottom: true, right: true, ..no_edges() },
    }
}

impl vstd::std_specs::convert::FromSpecImpl<ResizeEdge> for ResizeEdges {
    open spec fn obeys_from_spec() -> bool {
        true
    }

    open spec fn from_spec(edge: ResizeEdge) -> Self {
        xdg_edges(edge)
    }
}

impl From<ResizeEdge> for ResizeEdges {
    fn from(edge: ResizeEdge) -> (edges: Self) {
        let mut edges = ResizeEdges::default();
        match edge {
            ResizeEdge::Top => {
                edges.top = true;
            },
            ResizeEdge::Bottom => {
                edges.bottom = true;
            },
            ResizeEdge::Left => {
                edges.left = true;
            },
            ResizeEdge::Right => {
                edges.right = true;
            },
            ResizeEdge::TopLeft => {
                edges.top = true;
                edges.left = true;
            },
            ResizeEdge::TopRight => {
                edges.top = true;
                edges.right = true;
            },
            ResizeEdge::BottomLeft => {
                edges.bottom = true;
                edges.left = true;
            },
            ResizeEdge::BottomRight => {
                edges.bottom = true;
                edges.right = true;
            },
            _ => {},
        }
        edges
    }
}

impl vstd::std_specs::convert::FromSpecImpl<X11ResizeEdge> for ResizeEdges {
    open spec fn obeys_from_spec() -> bool {
        true
    }

    open spec fn from_spec(edge: X11ResizeEdge) -> Self {
        x11_edges(edge)
    }
}

impl From<X11ResizeEdge> for ResizeEdges {
    fn from(edge: X11ResizeEdge) -> (edges: Self) {
        let mut edges = ResizeEdges::default();
        match edge {
            X11ResizeEdge::Top => {
                edges.top = true;
            },
            X11ResizeEdge::Bottom => {
                edges.bottom = true;
            },
            X11ResizeEdge::Left => {
                edges.left = true;
            },
            X11ResizeEdge::Right => {
                edges.right = true;
            },
            X11ResizeEdge::TopLeft => {
                edges.top = true;
                edges.left = true;
            },
            X11ResizeEdge::TopRight => {
                edges.top = true;
                edges.right = true;
            },
            X11ResizeEdge::BottomLeft => {
                edges.bottom = true;
                edges.left = true;
            },
            X11ResizeEdge::BottomRight | X11ResizeEdge::Unknown => {
                edges.bottom = true;
                edges.right = true;
            },
        }
        edges
    }
}

/// One axis of a window that is dragged by `delta`: where it starts and how long
/// it is. Dragging its far end changes the length; dragging its near end also
/// moves the start, so that the far end stays.
pub open spec fn dragged(far: bool, near: bool, start: int, length: int, delta: int) -> (int, int) {
    if far {
        (start, greater(length + delta, MIN_WINDOW_SIZE as int))
    } else if near {
        let shrunk = greater(length - delta, MIN_WINDOW_SIZE as int);
        (start + (length - shrunk), shrunk)
    } else {
        (start, length)
    }
}

/// Whether an axis can be dragged by `delta` without leaving the range of an
/// `i32`.
pub open spec fn drag_fits(far: bool, near: bool, start: int, length: int, delta: int) -> bool {
    if far {
        fits_i32(length + delta)
    } else if near {
        &&& fits_i32(length - delta)
        &&& fits_i32(length - greater(length - delta, MIN_WINDOW_SIZE as int))
        &&& fits_i32(start + (length - greater(length - delta, MIN_WINDOW_SIZE as int)))
    } else {
        true
    }
}

/// Where a resized window is and how large it is, once the pointer has moved by
/// `delta`.
pub open spec fn resized(grab: ResizeGrab, delta: Point) -> Rectangle {
    let (x, w) = dragged(
        grab.edges.right,
        grab.edges.left,
        grab.initial_window_location.x as int,
        grab.initial_window_size.w as int,
        delta.x as int,
    );
    let (y, h) = dragged(
        grab.edges.bottom,
        grab.edges.top,
        grab.initial_window_location.y as int,
        grab.initial_window_size.h as int,
        delta.y as int,
    );
    Rectangle { loc: Point { x: x as i32, y: y as i32 }, size: Size { w: w as i32, h: h as i32 } }
}

/// Whether [`resized`] stays in range.
pub open spec fn resize_fits(grab: ResizeGrab, delta: Point) -> bool {
    &&& drag_fits(
        grab.edges.right,
        grab.edges.left,
        grab.initial_window_location.x as int,
        grab.initial_window_size.w as int,
        delta.x as int,
    )
    &&& drag_fits(
        grab.edges.bottom,
        grab.edges.top,
        grab.initial_window_location.y as int,
        grab.initial_window_size.h as int,
        delta.y as int,
    )
}

/// How a new geometry is given to a window. A toplevel is asked to resize, and
/// moved at once where its origin moves; an X11 window is configured directly.
pub open spec fn resize_actions(
    window: u64,
    kind: WindowKind,
    geometry: Rectangle,
    edges: ResizeEdges,
) -> Seq<GrabAction> {
    let placed = GrabAction::MapElement { window, location: geometry.loc, activate: false };
    match kind {
        WindowKind::Toplevel { .. } => if edges.top || edges.left {
            seq![GrabAction::ConfigureSize { window, size: geometry.size }, placed]
        } else {
            seq![GrabAction::ConfigureSize { window, size: geometry.size }]
        },
        WindowKind::X11 => seq![GrabAction::ConfigureX11 { window, geometry }, placed],
        WindowKind::Other => Seq::empty(),
    }
}

/// What a motion by `delta` does to a window that is resized.
pub open spec fn resize_motion_actions(grab: ResizeGrab, kind: WindowKind, delta: Point) -> Seq<
    GrabAction,
> {
    seq![GrabAction::ForwardMotion] + resize_actions(
        grab.window,
        kind,
        resized(grab, delta),
        grab.edges,
    )
}

/// What a motion by `delta` does to a window that is moved.
pub open spec fn move_actions(grab: MoveGrab, delta: Point) -> Seq<GrabAction> {
    seq![
        GrabAction::ForwardMotion,
        GrabAction::MapElement {
            window: grab.window,
            location: Point {
                x: (grab.initial_window_location.x + delta.x) as i32,
                y: (grab.initial_window_location.y + delta.y) as i32,
            },
            activate: true,
        },
    ]
}

/// Where a grab of a window begins: where the window is, or at the origin where it has no
/// place yet.
pub open spec fn grab_start(location: Option<Point>) -> Point {
    match location {
        Some(at) => at,
        None => origin(),
    }
}

/// What a button does during a grab: a release ends it.
pub open spec fn button_actions(released: bool) -> Seq<GrabAction> {
    if released {
        seq![GrabAction::ForwardButton, GrabAction::Unset]
    } else {
        seq![GrabAction::ForwardButton]
    }
}

fn drag_axis(far: bool, near: bool, start: i32, length: i32, delta: i32) -> (axis: (i32, i32))
    requires
        drag_fits(far, near, start as int, length as int, delta as int),
    ensures
        axis.0 == dragged(far, near, start as int, length as int, delta as int).0,
        axis.1 == dragged(far, near, start as int, length as int, delta as int).1,
{
    if far {
        let wanted: i32 = length + delta;
        (
            start,
            if wanted >= MIN_WINDOW_SIZE {
                wanted
            } else {
                MIN_WINDOW_SIZE
            },
        )
    } else if near {
        let wanted: i32 = length - delta;
        let shrunk: i32 = if wanted >= MIN_WINDOW_SIZE {
            wanted
        } else {
            MIN_WINDOW_SIZE
        };
        (start + (length - shrunk), shrunk)
    } else {
        (start, length)
    }
}

fn button(released: bool) -> (actions: Vec<GrabAction>)
    ensures
        actions@ == button_actions(released),
{
    let mut actions: Vec<GrabAction> = Vec::new();
    actions.push(GrabAction::ForwardButton);
    if released {
        actions.push(GrabAction::Unset);
    }
    actions
}

/// Gives a new geometry to a window of either kind.
pub fn apply_resize(
    window: u64,
    kind: WindowKind,
    geometry: Rectangle,
    edges: ResizeEdges,
) -> (actions: Vec<GrabAction>)
    ensures
        actions@ == resize_actions(window, kind, geometry, edges),
{
    let mut actions: Vec<GrabAction> = Vec::new();
    match kind {
        WindowKind::Toplevel { maximized: _ } => {
            actions.push(GrabAction::ConfigureSize { window, size: geometry.size });
            if edges.top || edges.left {
                actions.push(
                    GrabAction::MapElement { window, location: geometry.loc, activate: false },
                );
            }
        },
        WindowKind::X11 => {
            actions.push(GrabAction::ConfigureX11 { window, geometry });
            actions.push(
                GrabAction::MapElement { window, location: geometry.loc, activate: false },
            );
        },
        WindowKind::Other => {},
    }
    actions
}

impl MoveGrab {
    /// The pointer is `delta` away from where the grab began.
    pub fn motion(&self, delta: Point) -> (actions: Vec<GrabAction>)
        requires
            fits_i32(self.initial_window_location.x + delta.x),
            fits_i32(self.initial_window_location.y + delta.y),
        ensures
            actions@ == move_actions(*self, delta),
    {
        let location = Point {
            x: self.initial_window_location.x + delta.x,
            y: self.initial_window_location.y + delta.y,
        };
        let mut actions: Vec<GrabAction> = Vec::new();
        actions.push(GrabAction::ForwardMotion);
        actions.push(GrabAction::MapElement { window: self.window, location, activate: true });
        actions
    }

    /// A button went down or up.
    pub fn button(&self, released: bool) -> (actions: Vec<GrabAction>)
        ensures
            actions@ == button_actions(released),
    {
        button(released)
    }
}

impl ResizeGrab {
    /// The pointer is `delta` away from where the grab began; `kind` is what the
    /// window is.
    pub fn motion(&self, kind: WindowKind, delta: Point) -> (actions: Vec<GrabAction>)
        requires
            resize_fits(*self, delta),
        ensures
            actions@ == resize_motion_actions(*self, kind, delta),
    {
        let (x, w) = drag_axis(
            self.edges.right,
            self.edges.left,
            self.initial_window_location.x,
            self.initial_window_size.w,
            delta.x,
        );
        let (y, h) = drag_axis(
            self.edges.bottom,
            self.edges.top,
            self.initial_window_location.y,
            self.initial_window_size.h,
            delta.y,
        );
        let geometry = Rectangle { loc: Point { x, y }, size: Size { w, h } };
        let mut actions: Vec<GrabAction> = Vec::new();
        actions.push(GrabAction::ForwardMotion);
        let mut rest = apply_resize(self.window, kind, geometry, self.edges);
        actions.append(&mut rest);
        actions
    }

    /// A button went down or up.
    pub fn button(&self, released: bool) -> (actions: Vec<GrabAction>)
        ensures
            actions@ == button_actions(released),
    {
        button(released)
    }
}

/// Begins to move a window from where it is now, or from the origin where it has
/// no place yet.
pub fn start_move_grab(window: u64, location: Option<Point>) -> (grab: MoveGrab)
    ensures
        grab == (MoveGrab {
            window,
            initial_window_location: grab_start(location),
        }),
        grab.window == window,
        location matches Some(at) ==> grab.initial_window_location == at,
{
    let initial_window_location = match location {
        Some(at) => at,
        None => Point::default(),
    };
    MoveGrab { window, initial_window_location }
}

/// Begins to resize a window from where it is now and the size that it has.
pub fn start_resize_grab(
    window: u64,
    location: Option<Point>,
    size: Size,
    edges: ResizeEdges,
) -> (grab: ResizeGrab)
    ensures
        grab == (ResizeGrab {
            window,
            edges,
            initial_window_location: grab_start(location),
            initial_window_size: size,
        }),
        grab.window == window,
        grab.edges == edges,
        grab.initial_window_size == size,
        location matches Some(at) ==> grab.initial_window_location == at,
{
    let initial_window_location = match location {
        Some(at) => at,
        None => Point::default(),
    };
    ResizeGrab { window, edges, initial_window_location, initial_window_size: size }
}

/// No client can drag two opposite edges at once.
pub proof fn opposite_edges_exclude_each_other(xdg: ResizeEdge, x11: X11ResizeEdge)
    ensures
        !(xdg_edges(xdg).top && xdg_edges(xdg).bottom),
        !(xdg_edges(xdg).left && xdg_edges(xdg).right),
        !(x11_edges(x11).top && x11_edges(x11).bottom),
        !(x11_edges(x11).left && x11_edges(x11).right),
{
}

/// An axis that is dragged never gets shorter than [`MIN_WINDOW_SIZE`].
pub proof fn dragged_axis_keeps_a_minimum(
    far: bool,
    near: bool,
    start: int,
    length: int,
    delta: int,
)
    requires
        far || near,
    ensures
        dragged(far, near, start, length, delta).1 >= MIN_WINDOW_SIZE,
{
}

/// The end of an axis that is not dragged stays where it is.
pub proof fn the_other_end_stays(far: bool, near: bool, start: int, length: int, delta: int)
    ensures
        ({
            let (to, size) = dragged(far, near, start, length, delta);
            &&& !near || far ==> to == start
            &&& !far ==> to + size == start + length
        }),
{
}

/// A pointer that has not moved leaves a window as it is that is not below the
/// minimum.
pub proof fn no_motion_no_resize(grab: ResizeGrab)
    requires
        grab.initial_window_size.w >= MIN_WINDOW_SIZE,
        grab.initial_window_size.h >= MIN_WINDOW_SIZE,
    ensures
        resize_fits(grab, origin()),
        resized(grab, origin()) == (Rectangle {
            loc: grab.initial_window_location,
            size: grab.initial_window_size,
        }),
{
}

/// The edges that an xdg client drags are those that it names, a corner being two edges.
pub proof fn xdg_clients_drag_the_edges_that_they_name(edge: ResizeEdge)
    ensures
        xdg_edges(edge).top <==> edge is Top || edge is TopLeft || edge is TopRight,
        xdg_edges(edge).bottom <==> edge is Bottom || edge is BottomLeft || edge is BottomRight,
        xdg_edges(edge).left <==> edge is Left || edge is TopLeft || edge is BottomLeft,
        xdg_edges(edge).right <==> edge is Right || edge is TopRight || edge is BottomRight,
{
}

/// The edges that an X11 client drags are those that it names, a corner being two edges;
/// where the name is not known, it is the bottom right corner.
pub proof fn x11_clients_drag_the_edges_that_they_name(edge: X11ResizeEdge)
    ensures
        x11_edges(edge).top <==> edge is Top || edge is TopLeft || edge is TopRight,
        x11_edges(edge).bottom <==> edge is Bottom || edge is BottomLeft || edge is BottomRight
            || edge is Unknown,
        x11_edges(edge).left <==> edge is Left || edge is TopLeft || edge is BottomLeft,
        x11_edges(edge).right <==> edge is Right || edge is TopRight || edge is BottomRight
            || edge is Unknown,
{
}

/// The end of an axis that is dragged follows the pointer, as long as the axis keeps its
/// minimum; beyond that the axis stays at the minimum. An axis that is not dragged stays.
pub proof fn the_dragged_end_follows_the_pointer(
    far: bool,
    near: bool,
    start: int,
    length: int,
    delta: int,
)
    ensures
        ({
            let (to, size) = dragged(far, near, start, length, delta);
            let room = if far {
                length + delta
            } else {
                length - delta
            };
            &&& far && room >= MIN_WINDOW_SIZE ==> to + size == start + length + delta
            &&& !far && near && room >= MIN_WINDOW_SIZE ==> to == start + delta
            &&& (far || near) && room < MIN_WINDOW_SIZE ==> size == 32
            &&& !far && !near ==> to == start && size == length
        }),
{
}

/// Dragging the right edge or the left edge changes where a window is and how wide it is,
/// dragging the bottom or the top how high: each follows the pointer, and the edge across
/// from it stays. A side that is not dragged does not change.
pub proof fn a_resized_window_follows_the_pointer(grab: ResizeGrab, delta: Point)
    requires
        resize_fits(grab, delta),
        !(grab.edges.left && grab.edges.right),
        !(grab.edges.top && grab.edges.bottom),
    ensures
        ({
            let now = resized(grab, delta);
            let at = grab.initial_window_location;
            let size = grab.initial_window_size;
            &&& grab.edges.right ==> now.loc.x == at.x && (size.w + delta.x >= MIN_WINDOW_SIZE
                ==> now.size.w == size.w + delta.x)
            &&& grab.edges.left ==> now.loc.x + now.size.w == at.x + size.w && (size.w - delta.x
                >= MIN_WINDOW_SIZE ==> now.loc.x == at.x + delta.x)
            &&& !grab.edges.left && !grab.edges.right ==> now.loc.x == at.x && now.size.w == size.w
            &&& grab.edges.bottom ==> now.loc.y == at.y && (size.h + delta.y >= MIN_WINDOW_SIZE
                ==> now.size.h == size.h + delta.y)
            &&& grab.edges.top ==> now.loc.y + now.size.h == at.y + size.h && (size.h - delta.y
                >= MIN_WINDOW_SIZE ==> now.loc.y == at.y + delta.y)
            &&& !grab.edges.top && !grab.edges.bottom ==> now.loc.y == at.y && now.size.h == size.h
            &&& grab.edges.left || grab.edges.right ==> now.size.w >= MIN_WINDOW_SIZE
            &&& grab.edges.top || grab.edges.bottom ==> now.size.h >= MIN_WINDOW_SIZE
            &&& (grab.edges.left && size.w - delta.x < MIN_WINDOW_SIZE) || (grab.edges.right
                && size.w + delta.x < MIN_WINDOW_SIZE) ==> now.size.w == MIN_WINDOW_SIZE
            &&& (grab.edges.top && size.h - delta.y < MIN_WINDOW_SIZE) || (grab.edges.bottom
                && size.h + delta.y < MIN_WINDOW_SIZE) ==> now.size.h == MIN_WINDOW_SIZE
        }),
{
}

/// Whatever edges are dragged, an X11 window is handed exactly the geometry that it is
/// resized to, and is then placed there; a toplevel is handed exactly the size, and is then
/// placed where its top or left edge has moved to, and only then. Neither is activated, no
/// other window is touched, and a window of another kind is left alone.
pub proof fn a_resize_reaches_the_window(
    window: u64,
    kind: WindowKind,
    geometry: Rectangle,
    edges: ResizeEdges,
)
    ensures
        ({
            let actions = resize_actions(window, kind, geometry, edges);
            let placed = GrabAction::MapElement {
                window,
                location: geometry.loc,
                activate: false,
            };
            &&& kind is X11 ==> actions.len() == 2 && actions[0] == (GrabAction::ConfigureX11 {
                window,
                geometry,
            }) && actions[1] == placed
            &&& kind is Toplevel ==> actions.len() >= 1 && actions[0] == (
            GrabAction::ConfigureSize { window, size: geometry.size })
            &&& kind is Toplevel && (edges.top || edges.left) ==> actions.len() == 2 && actions[1]
                == placed
            &&& kind is Toplevel && !edges.top && !edges.left ==> actions.len() == 1
            &&& kind is Other ==> actions.len() == 0
        }),
{
}

/// Every motion during a resize is forwarded first. Then an X11 window is configured and
/// placed, and a toplevel is asked for its new size, whichever edges are dragged and however
/// far.
pub proof fn every_motion_resizes_the_window(grab: ResizeGrab, kind: WindowKind, delta: Point)
    ensures
        ({
            let actions = resize_motion_actions(grab, kind, delta);
            let geometry = resized(grab, delta);
            &&& actions.len() >= 1 && actions[0] == GrabAction::ForwardMotion
            &&& kind is X11 ==> actions.len() == 3 && actions[1] == (GrabAction::ConfigureX11 {
                window: grab.window,
                geometry,
            }) && actions[2] == (GrabAction::MapElement {
                window: grab.window,
                location: geometry.loc,
                activate: false,
            })
            &&& kind is Toplevel ==> actions.len() >= 2 && actions[1] == (
            GrabAction::ConfigureSize { window: grab.window, size: geometry.size })
            &&& kind is Toplevel && (grab.edges.top || grab.edges.left) ==> actions.len() == 3
                && actions[2] == (GrabAction::MapElement {
                window: grab.window,
                location: geometry.loc,
                activate: false,
            })
            &&& kind is Toplevel && !grab.edges.top && !grab.edges.left ==> actions.len() == 2
            &&& kind is Other ==> actions.len() == 1
        }),
{
}

/// A window that is moved keeps its distance from the pointer, and is activated. The motion
/// is forwarded first.
pub proof fn a_moved_window_follows_the_pointer(grab: MoveGrab, delta: Point)
    requires
        fits_i32(grab.initial_window_location.x + delta.x),
        fits_i32(grab.initial_window_location.y + delta.y),
    ensures
        ({
            let actions = move_actions(grab, delta);
            &&& actions.len() == 2
            &&& actions[0] == GrabAction::ForwardMotion
            &&& actions[1] matches GrabAction::MapElement { window, location, activate } && window
                == grab.window && location.x - delta.x == grab.initial_window_location.x
                && location.y - delta.y == grab.initial_window_location.y && activate
        }),
{
}

/// A grab begins where the window is: before the pointer has moved, a window that has a
/// place stays there.
pub proof fn a_grab_begins_where_the_window_is(window: u64, at: Point)
    ensures
        grab_start(Some(at)) == at,
        grab_start(None) == (Point { x: 0, y: 0 }),
        move_actions(
            MoveGrab { window, initial_window_location: grab_start(Some(at)) },
            Point { x: 0, y: 0 },
        )[1] == (GrabAction::MapElement { window, location: at, activate: true }),
{
}

/// A button is always forwarded, and first. A release ends the grab, and nothing else does.
pub proof fn a_release_ends_the_grab(released: bool)
    ensures
        button_actions(released).len() >= 1,
        button_actions(released)[0] == GrabAction::ForwardButton,
        button_actions(released).contains(GrabAction::Unset) <==> released,
        released ==> button_actions(released).last() == GrabAction::Unset,
        button_actions(released).len() <= 2,
{
    let actions = button_actions(released);
    if released {
        assert(actions[1] == GrabAction::Unset);
    } else {
        assert(actions[0] != GrabAction::Unset);
    }
}

/// A window can be resized by any motion that keeps its edges, and the longest that it can
/// get, in the coordinate space.
pub proof fn resizes_within_the_coordinate_space_fit(grab: ResizeGrab, delta: Point)
    requires
        0 <= grab.initial_window_size.w <= 0x2000_0000,
        0 <= grab.initial_window_size.h <= 0x2000_0000,
        -0x2000_0000 <= grab.initial_window_location.x <= 0x2000_0000,
        -0x2000_0000 <= grab.initial_window_location.y <= 0x2000_0000,
        -0x2000_0000 <= delta.x <= 0x2000_0000,
        -0x2000_0000 <= delta.y <= 0x2000_0000,
    ensures
        resize_fits(grab, delta),
{
}

/// Converting the edge that a client names gives the edges that it drags, for both kinds of
/// clients.
pub proof fn conversions_keep_the_edges(edge: ResizeEdge, x11: X11ResizeEdge)
    ensures
        <ResizeEdges as vstd::std_specs::convert::FromSpec<ResizeEdge>>::obeys_from_spec(),
        <ResizeEdges as vstd::std_specs::convert::FromSpec<ResizeEdge>>::from_spec(edge)
            == xdg_edges(edge),
        <ResizeEdges as vstd::std_specs::convert::FromSpec<X11ResizeEdge>>::obeys_from_spec(),
        <ResizeEdges as vstd::std_specs::convert::FromSpec<X11ResizeEdge>>::from_spec(x11)
            == x11_edges(x11),
{
}

} // verus!
