use blue_compositor::geometry::{Point, Rectangle, Size};
use blue_compositor::input::keyboard::{
    filter_key, handle_keyboard, recognise, screenshot_key_command, KeyAction, KeyEvent, Shortcut,
    KEY_1, KEY_2, KEY_3, KEY_4, KEY_ALT_L, KEY_ALT_R, KEY_DOWN, KEY_ESCAPE, KEY_F4, KEY_LEFT,
    KEY_LOWER_T, KEY_PRINT, KEY_RIGHT, KEY_SUPER_L, KEY_SUPER_R, KEY_TAB, KEY_UP,
};
use blue_compositor::input::pointer::{
    absolute_size, handle_input, handle_pointer_axis, handle_pointer_button, output_bounds,
    AxisInput, Bounds, InputEvent, InputReply, PointerAction, ScrollAxis, WindowUnderPointer,
};
use blue_compositor::state::{BlueState, Desktop, DesktopWindow, WindowKind, WindowMeta};

fn state() -> BlueState {
    BlueState::new(4, 300, 1, 2, 3)
}

fn desktop() -> Desktop {
    Desktop {
        windows: vec![
            DesktopWindow {
                id: 10,
                surface: Some(100),
                kind: WindowKind::Toplevel { maximized: false },
                geometry: None,
            },
            DesktopWindow { id: 11, surface: Some(101), kind: WindowKind::X11, geometry: None },
        ],
        has_keyboard: true,
        keyboard_focus: Some(100),
        first_output_geometry: None,
    }
}

fn meta() -> WindowMeta {
    WindowMeta {
        title: "t".to_string(),
        app_id: "a".to_string(),
        workspace: 0,
        is_minimized: false,
        is_fullscreen: false,
    }
}

fn key(sym: u32, pressed: bool) -> KeyEvent {
    KeyEvent { sym, pressed, ctrl: false, alt: false, shift: false, logo: false }
}

fn alt(sym: u32, pressed: bool) -> KeyEvent {
    KeyEvent { alt: true, ..key(sym, pressed) }
}

fn logo(sym: u32) -> KeyEvent {
    KeyEvent { logo: true, ..key(sym, true) }
}

#[test]
fn keysyms_are_those_of_x11() {
    assert_eq!(KEY_1, xkeysym::key::_1);
    assert_eq!(KEY_2, xkeysym::key::_2);
    assert_eq!(KEY_3, xkeysym::key::_3);
    assert_eq!(KEY_4, xkeysym::key::_4);
    assert_eq!(KEY_LOWER_T, xkeysym::key::t);
    assert_eq!(KEY_TAB, xkeysym::key::Tab);
    assert_eq!(KEY_ESCAPE, xkeysym::key::Escape);
    assert_eq!(KEY_LEFT, xkeysym::key::Left);
    assert_eq!(KEY_UP, xkeysym::key::Up);
    assert_eq!(KEY_RIGHT, xkeysym::key::Right);
    assert_eq!(KEY_DOWN, xkeysym::key::Down);
    assert_eq!(KEY_PRINT, xkeysym::key::Print);
    assert_eq!(KEY_F4, xkeysym::key::F4);
    assert_eq!(KEY_ALT_L, xkeysym::key::Alt_L);
    assert_eq!(KEY_ALT_R, xkeysym::key::Alt_R);
    assert_eq!(KEY_SUPER_L, xkeysym::key::Super_L);
    assert_eq!(KEY_SUPER_R, xkeysym::key::Super_R);
}

#[test]
fn alt_tab_opens_and_steps_the_switcher() {
    let mut s = state();
    s.switcher_index = 5;
    let first = filter_key(&mut s, &desktop(), alt(KEY_TAB, true));
    assert!(first.intercept);
    assert_eq!(first.action, KeyAction::Nothing);
    assert!(s.show_switcher);
    assert_eq!(s.switcher_index, 0);
    let second = filter_key(&mut s, &desktop(), alt(KEY_TAB, true));
    assert_eq!(second.action, KeyAction::CycleSwitcher { forward: true });
    let shifted = KeyEvent { shift: true, ..alt(KEY_TAB, true) };
    let back = filter_key(&mut s, &desktop(), shifted);
    assert!(back.intercept);
    assert_eq!(back.action, KeyAction::CycleSwitcher { forward: false });
    assert!(s.show_switcher);
    let commit = filter_key(&mut s, &desktop(), key(KEY_ALT_R, false));
    assert!(commit.intercept);
    assert_eq!(commit.action, KeyAction::ApplySwitcherSelection);
}

#[test]
fn alt_shift_tab_opens_a_closed_switcher() {
    let mut s = state();
    s.switcher_index = 5;
    let shifted = KeyEvent { shift: true, ..alt(KEY_TAB, true) };
    let back = filter_key(&mut s, &desktop(), shifted);
    assert!(back.intercept);
    assert_eq!(back.action, KeyAction::Nothing);
    assert!(s.show_switcher);
    assert_eq!(s.switcher_index, 0);
    let again = filter_key(&mut s, &desktop(), shifted);
    assert_eq!(again.action, KeyAction::CycleSwitcher { forward: false });
    let close = KeyEvent { shift: true, ..alt(KEY_F4, true) };
    assert_eq!(recognise(close, false), recognise(alt(KEY_F4, true), false));
}

#[test]
fn alt_release_is_forwarded_while_the_switcher_is_closed() {
    let mut s = state();
    let outcome = filter_key(&mut s, &desktop(), key(KEY_ALT_L, false));
    assert!(!outcome.intercept);
    assert_eq!(outcome.action, KeyAction::Nothing);
}

#[test]
fn tapping_super_toggles_the_start_menu() {
    let mut s = state();
    assert_eq!(filter_key(&mut s, &desktop(), key(KEY_SUPER_L, true)).action, KeyAction::Nothing);
    assert!(s.super_pressed);
    let release = filter_key(&mut s, &desktop(), key(KEY_SUPER_L, false));
    assert!(release.intercept);
    assert_eq!(release.action, KeyAction::ToggleStartMenu);
    assert!(!s.super_pressed);
    assert_eq!(filter_key(&mut s, &desktop(), key(KEY_SUPER_R, false)).action, KeyAction::Nothing);
}

#[test]
fn a_super_shortcut_is_no_tap() {
    let mut s = state();
    filter_key(&mut s, &desktop(), key(KEY_SUPER_L, true));
    assert_eq!(filter_key(&mut s, &desktop(), logo(KEY_TAB)).action, KeyAction::ToggleFullscreenMenu);
    assert!(s.super_used);
    assert_eq!(filter_key(&mut s, &desktop(), key(KEY_SUPER_L, false)).action, KeyAction::Nothing);
    assert!(!s.super_used);
}

#[test]
fn digits_and_arrows_switch_workspaces() {
    let mut s = state();
    for (sym, index) in [(KEY_1, 0), (KEY_2, 1), (KEY_3, 2), (KEY_4, 3)] {
        assert_eq!(
            filter_key(&mut s, &desktop(), logo(sym)).action,
            KeyAction::SwitchWorkspace { index }
        );
    }
    assert_eq!(recognise(logo(KEY_4 + 1), false), Shortcut::Unbound);
    s.current_workspace = 2;
    assert_eq!(filter_key(&mut s, &desktop(), logo(KEY_RIGHT)).action, KeyAction::SwitchWorkspace { index: 3 });
    assert_eq!(filter_key(&mut s, &desktop(), logo(KEY_LEFT)).action, KeyAction::SwitchWorkspace { index: 1 });
    s.current_workspace = 3;
    assert_eq!(filter_key(&mut s, &desktop(), logo(KEY_RIGHT)).action, KeyAction::SwitchWorkspace { index: 3 });
    s.current_workspace = 0;
    assert_eq!(filter_key(&mut s, &desktop(), logo(KEY_LEFT)).action, KeyAction::SwitchWorkspace { index: 0 });
}

#[test]
fn super_up_toggles_maximized() {
    let mut s = state();
    let mut d = desktop();
    assert_eq!(
        filter_key(&mut s, &d, logo(KEY_UP)).action,
        KeyAction::ConfigureMaximized { window: 10, maximized: true }
    );
    d.windows[0].kind = WindowKind::Toplevel { maximized: true };
    assert_eq!(
        filter_key(&mut s, &d, logo(KEY_UP)).action,
        KeyAction::ConfigureMaximized { window: 10, maximized: false }
    );
    d.keyboard_focus = Some(101);
    assert_eq!(filter_key(&mut s, &d, logo(KEY_UP)).action, KeyAction::Nothing);
    d.keyboard_focus = None;
    let outcome = filter_key(&mut s, &d, logo(KEY_UP));
    assert!(outcome.intercept);
    assert_eq!(outcome.action, KeyAction::Nothing);
}

#[test]
fn super_down_minimizes_the_focused_window() {
    let mut s = state();
    s.window_meta.insert(10, meta());
    s.window_meta.insert(11, meta());
    filter_key(&mut s, &desktop(), logo(KEY_DOWN));
    assert!(s.window_meta[&10].is_minimized);
    assert!(!s.window_meta[&11].is_minimized);
    assert_eq!(s.window_meta[&10].title, "t");
}

#[test]
fn alt_f4_closes_the_focused_toplevel() {
    let mut s = state();
    let mut d = desktop();
    assert_eq!(filter_key(&mut s, &d, alt(KEY_F4, true)).action, KeyAction::SendClose { window: 10 });
    d.keyboard_focus = Some(101);
    assert_eq!(filter_key(&mut s, &d, alt(KEY_F4, true)).action, KeyAction::Nothing);
    assert!(!filter_key(&mut s, &d, alt(KEY_F4, false)).intercept);
}

#[test]
fn escape_closes_only_the_switcher() {
    let mut s = state();
    assert!(!filter_key(&mut s, &desktop(), key(KEY_ESCAPE, true)).intercept);
    s.show_switcher = true;
    assert!(filter_key(&mut s, &desktop(), key(KEY_ESCAPE, true)).intercept);
    assert!(!s.show_switcher);
}

#[test]
fn ctrl_alt_t_launches_a_terminal() {
    let mut s = state();
    let event = KeyEvent { ctrl: true, ..alt(KEY_LOWER_T, true) };
    let reply = handle_keyboard(&mut s, &desktop(), event);
    assert!(reply.outcome.intercept);
    assert_eq!(reply.outcome.action, KeyAction::LaunchTerminal);
    assert_eq!(
        reply.command.unwrap(),
        "kitty & || alacritty & || gnome-terminal & || xterm &"
    );
    let plain = handle_keyboard(&mut s, &desktop(), key(KEY_LOWER_T, true));
    assert!(!plain.outcome.intercept);
    assert_eq!(plain.command, None);
}

#[test]
fn print_takes_a_screenshot_named_after_the_time() {
    let mut s = state();
    let before = chrono::Local::now().format("%Y%m%d_%H%M%S").to_string();
    let reply = handle_keyboard(&mut s, &desktop(), key(KEY_PRINT, true));
    let after = chrono::Local::now().format("%Y%m%d_%H%M%S").to_string();
    assert_eq!(reply.outcome.action, KeyAction::TakeScreenshot);
    let command = reply.command.unwrap();
    let home = dirs::home_dir().map(|p| p.to_string_lossy().to_string());
    let path = command
        .strip_prefix("flameshot gui -p '")
        .unwrap()
        .split('\'')
        .next()
        .unwrap()
        .to_string();
    let stamp = path
        .rsplit('/')
        .next()
        .unwrap()
        .strip_prefix("screenshot_")
        .unwrap()
        .strip_suffix(".png")
        .unwrap()
        .to_string();
    assert!(before <= stamp && stamp <= after);
    assert_eq!(command, screenshot_key_command(&home, &stamp));
}

#[test]
fn screenshot_commands_name_the_file_twice() {
    assert_eq!(
        screenshot_key_command(&Some("/home/ada".to_string()), "20240102_030405"),
        "flameshot gui -p '/home/ada/Pictures/screenshot_20240102_030405.png' 2>/dev/null || scrot '/home/ada/Pictures/screenshot_20240102_030405.png' 2>/dev/null"
    );
    assert_eq!(
        screenshot_key_command(&None, "x"),
        "flameshot gui -p 'Pictures/screenshot_x.png' 2>/dev/null || scrot 'Pictures/screenshot_x.png' 2>/dev/null"
    );
    assert_eq!(
        screenshot_key_command(&Some("/".to_string()), "x"),
        "flameshot gui -p '/Pictures/screenshot_x.png' 2>/dev/null || scrot '/Pictures/screenshot_x.png' 2>/dev/null"
    );
}

#[test]
fn the_pointer_stays_on_the_first_output() {
    let output = Rectangle { loc: Point { x: 100, y: -20 }, size: Size { w: 800, h: 600 } };
    assert_eq!(
        output_bounds(Some(output)),
        Bounds { min: Point { x: 100, y: -20 }, max: Point { x: 900, y: 580 } }
    );
    assert_eq!(
        output_bounds(None),
        Bounds { min: Point { x: 0, y: 0 }, max: Point { x: 1920, y: 1080 } }
    );
    assert_eq!(absolute_size(Some(output)), Size { w: 800, h: 600 });
    assert_eq!(absolute_size(None), Size { w: 1920, h: 1080 });
}

#[test]
fn a_press_raises_and_focuses() {
    let under = WindowUnderPointer { window: 4, surface: Some(40) };
    assert_eq!(
        handle_pointer_button(true, Some(under)),
        vec![
            PointerAction::Raise { window: 4 },
            PointerAction::SetFocus { surface: Some(40) },
            PointerAction::Button,
            PointerAction::Frame,
        ]
    );
    let bare = WindowUnderPointer { window: 4, surface: None };
    assert_eq!(
        handle_pointer_button(true, Some(bare)),
        vec![PointerAction::Raise { window: 4 }, PointerAction::Button, PointerAction::Frame]
    );
    assert_eq!(
        handle_pointer_button(true, None),
        vec![
            PointerAction::SetFocus { surface: None },
            PointerAction::Button,
            PointerAction::Frame,
        ]
    );
    assert_eq!(
        handle_pointer_button(false, Some(under)),
        vec![PointerAction::Button, PointerAction::Frame]
    );
}

#[test]
fn scrolling_reports_the_axes_that_moved() {
    let none = AxisInput { has_amount: false, v120: Some(120) };
    let smooth = AxisInput { has_amount: true, v120: None };
    let wheel = AxisInput { has_amount: true, v120: Some(-120) };
    assert_eq!(
        handle_pointer_axis(none, none),
        vec![PointerAction::Axis, PointerAction::Frame]
    );
    assert_eq!(
        handle_pointer_axis(smooth, wheel),
        vec![
            PointerAction::FrameAmount { axis: ScrollAxis::Horizontal },
            PointerAction::FrameAmount { axis: ScrollAxis::Vertical },
            PointerAction::FrameV120 { axis: ScrollAxis::Vertical, v120: -120 },
            PointerAction::Axis,
            PointerAction::Frame,
        ]
    );
}

#[test]
fn input_events_are_dispatched_by_kind() {
    let mut s = state();
    let d = desktop();
    assert_eq!(
        handle_input(&mut s, &d, InputEvent::PointerMotion),
        InputReply::MoveWithin { bounds: output_bounds(None) }
    );
    assert_eq!(
        handle_input(&mut s, &d, InputEvent::PointerMotionAbsolute),
        InputReply::PlaceIn { size: Size { w: 1920, h: 1080 } }
    );
    assert_eq!(
        handle_input(&mut s, &d, InputEvent::PointerButton { pressed: false, under: None }),
        InputReply::Pointer { actions: vec![PointerAction::Button, PointerAction::Frame] }
    );
    let still = AxisInput { has_amount: false, v120: None };
    assert_eq!(
        handle_input(&mut s, &d, InputEvent::PointerAxis { horizontal: still, vertical: still }),
        InputReply::Pointer { actions: vec![PointerAction::Axis, PointerAction::Frame] }
    );
    assert_eq!(handle_input(&mut s, &d, InputEvent::Other), InputReply::Nothing);
    match handle_input(&mut s, &d, InputEvent::Keyboard { event: logo(KEY_2) }) {
        InputReply::Key { reply } => {
            assert_eq!(reply.outcome.action, KeyAction::SwitchWorkspace { index: 1 })
        }
        other => panic!("{:?}", other),
    }
    assert!(s.super_used);
}
