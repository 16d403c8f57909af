use blue_compositor::geometry::{Point, Rectangle, Size};
use blue_compositor::input::grab::{
    apply_resize, start_move_grab, start_resize_grab, GrabAction, ResizeEdges, X11ResizeEdge,
    MIN_WINDOW_SIZE,
};
use blue_compositor::state::WindowKind;
use wayland_protocols::xdg::shell::server::xdg_toplevel::ResizeEdge as XdgEdge;

const TOPLEVEL: WindowKind = WindowKind::Toplevel { maximized: false };

fn edges(top: bool, bottom: bool, left: bool, right: bool) -> ResizeEdges {
    ResizeEdges { top, bottom, left, right }
}

#[test]
fn xdg_single_edges_map_correctly() {
    assert_eq!(ResizeEdges::from(XdgEdge::Top), ResizeEdges { top: true, bottom: false, left: false, right: false });
    assert_eq!(ResizeEdges::from(XdgEdge::Bottom), ResizeEdges { top: false, bottom: true, left: false, right: false });
    assert_eq!(ResizeEdges::from(XdgEdge::Left), ResizeEdges { top: false, bottom: false, left: true, right: false });
    assert_eq!(ResizeEdges::from(XdgEdge::Right), ResizeEdges { top: false, bottom: false, left: false, right: true });
}

#[test]
fn xdg_corner_edges_set_two_flags() {
    assert_eq!(ResizeEdges::from(XdgEdge::TopLeft), ResizeEdges { top: true, left: true, bottom: false, right: false });
    assert_eq!(ResizeEdges::from(XdgEdge::TopRight), ResizeEdges { top: true, right: true, bottom: false, left: false });
    assert_eq!(ResizeEdges::from(XdgEdge::BottomLeft), ResizeEdges { bottom: true, left: true, top: false, right: false });
    assert_eq!(ResizeEdges::from(XdgEdge::BottomRight), ResizeEdges { bottom: true, right: true, top: false, left: false });
}

#[test]
fn xdg_none_edge_sets_no_flags() {
    assert_eq!(ResizeEdges::from(XdgEdge::None), ResizeEdges::default());
}

#[test]
fn x11_edges_map_like_xdg_edges() {
    let pairs = [
        (X11ResizeEdge::Top, XdgEdge::Top),
        (X11ResizeEdge::Bottom, XdgEdge::Bottom),
        (X11ResizeEdge::Left, XdgEdge::Left),
        (X11ResizeEdge::Right, XdgEdge::Right),
        (X11ResizeEdge::TopLeft, XdgEdge::TopLeft),
        (X11ResizeEdge::TopRight, XdgEdge::TopRight),
        (X11ResizeEdge::BottomLeft, XdgEdge::BottomLeft),
        (X11ResizeEdge::BottomRight, XdgEdge::BottomRight),
    ];
    for (x11, xdg) in pairs {
        assert_eq!(ResizeEdges::from(x11), ResizeEdges::from(xdg));
    }
}

#[test]
fn unknown_x11_edge_is_bottom_right() {
    assert_eq!(ResizeEdges::from(X11ResizeEdge::Unknown), edges(false, true, false, true));
}

#[test]
fn default_edges_are_all_clear() {
    assert_eq!(ResizeEdges::default(), edges(false, false, false, false));
}

#[test]
fn dragging_the_bottom_right_corner_grows_the_window() {
    let grab = start_resize_grab(
        7,
        Some(Point { x: 100, y: 50 }),
        Size { w: 300, h: 200 },
        edges(false, true, false, true),
    );
    let actions = grab.motion(TOPLEVEL, Point { x: 25, y: -40 });
    assert_eq!(
        actions,
        vec![
            GrabAction::ForwardMotion,
            GrabAction::ConfigureSize { window: 7, size: Size { w: 325, h: 160 } },
        ]
    );
}

#[test]
fn dragging_the_top_left_corner_keeps_the_other_corner() {
    let grab = start_resize_grab(
        7,
        Some(Point { x: 100, y: 50 }),
        Size { w: 300, h: 200 },
        edges(true, false, true, false),
    );
    let actions = grab.motion(TOPLEVEL, Point { x: 30, y: 20 });
    assert_eq!(
        actions,
        vec![
            GrabAction::ForwardMotion,
            GrabAction::ConfigureSize { window: 7, size: Size { w: 270, h: 180 } },
            GrabAction::MapElement { window: 7, location: Point { x: 130, y: 70 }, activate: false },
        ]
    );
}

#[test]
fn windows_do_not_shrink_below_the_minimum() {
    assert_eq!(MIN_WINDOW_SIZE, 32);
    let grab = start_resize_grab(
        1,
        Some(Point { x: 0, y: 0 }),
        Size { w: 100, h: 100 },
        edges(false, true, true, false),
    );
    let actions = grab.motion(TOPLEVEL, Point { x: 90, y: -90 });
    assert_eq!(
        actions,
        vec![
            GrabAction::ForwardMotion,
            GrabAction::ConfigureSize { window: 1, size: Size { w: 32, h: 32 } },
            GrabAction::MapElement { window: 1, location: Point { x: 68, y: 0 }, activate: false },
        ]
    );
}

#[test]
fn right_edge_wins_over_left_edge() {
    let grab = start_resize_grab(
        1,
        Some(Point { x: 10, y: 10 }),
        Size { w: 100, h: 100 },
        edges(true, true, true, true),
    );
    let actions = grab.motion(WindowKind::X11, Point { x: 5, y: 6 });
    assert_eq!(
        actions,
        vec![
            GrabAction::ForwardMotion,
            GrabAction::ConfigureX11 {
                window: 1,
                geometry: Rectangle { loc: Point { x: 10, y: 10 }, size: Size { w: 105, h: 106 } },
            },
            GrabAction::MapElement { window: 1, location: Point { x: 10, y: 10 }, activate: false },
        ]
    );
}

#[test]
fn without_edges_a_small_window_stays_small() {
    let grab = start_resize_grab(1, None, Size { w: 10, h: 20 }, ResizeEdges::default());
    assert_eq!(grab.initial_window_location, Point { x: 0, y: 0 });
    assert_eq!(
        grab.motion(TOPLEVEL, Point { x: 500, y: 500 }),
        vec![
            GrabAction::ForwardMotion,
            GrabAction::ConfigureSize { window: 1, size: Size { w: 10, h: 20 } },
        ]
    );
}

#[test]
fn resizing_nothing_but_windows_of_a_kind() {
    let geometry = Rectangle { loc: Point { x: 1, y: 2 }, size: Size { w: 40, h: 50 } };
    assert_eq!(apply_resize(3, WindowKind::Other, geometry, edges(true, false, true, false)), vec![]);
}

#[test]
fn moving_follows_the_pointer() {
    let grab = start_move_grab(9, Some(Point { x: -5, y: 8 }));
    assert_eq!(
        grab.motion(Point { x: 15, y: -18 }),
        vec![
            GrabAction::ForwardMotion,
            GrabAction::MapElement { window: 9, location: Point { x: 10, y: -10 }, activate: true },
        ]
    );
    assert_eq!(start_move_grab(9, None).initial_window_location, Point { x: 0, y: 0 });
}

#[test]
fn releasing_the_button_ends_a_grab() {
    let moving = start_move_grab(9, None);
    assert_eq!(moving.button(true), vec![GrabAction::ForwardButton, GrabAction::Unset]);
    assert_eq!(moving.button(false), vec![GrabAction::ForwardButton]);
    let resizing = start_resize_grab(9, None, Size { w: 50, h: 50 }, ResizeEdges::default());
    assert_eq!(resizing.button(true), vec![GrabAction::ForwardButton, GrabAction::Unset]);
    assert_eq!(resizing.button(false), vec![GrabAction::ForwardButton]);
}
