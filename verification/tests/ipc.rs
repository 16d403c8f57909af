use blue_compositor::geometry::{Point, Rectangle, Size};
use blue_compositor::ipc::handler::{
    screenshot_command, screenshot_reply, tile_placement, ShellAction, KEY_REPEAT_DELAY,
    KEY_REPEAT_RATE,
};
use blue_compositor::ipc::messages::{CompositorMessage, ShellMessage, WindowInfo};
use blue_compositor::ipc::socket::{
    accept, broadcast, broadcast_idle_changed, broadcast_screen_locked,
    broadcast_start_menu_toggle, broadcast_window_closed, broadcast_window_opened,
    broadcast_workspace_switch, frame, ipc_socket_path, window_list, AcceptOutcome, PollRound,
    ReadOutcome,
};
use blue_compositor::ipc::handle_shell_message;
use blue_compositor::output::{Output, OutputTransform, Scale};
use blue_compositor::state::{BlueState, Desktop, DesktopWindow, WindowKind, WindowMeta};

fn state() -> BlueState {
    let mut s = BlueState::new(4, 300, 1, 2, 3);
    s.outputs.push(Output {
        id: 1,
        name: "eDP-1".to_string(),
        make: "M".to_string(),
        model: "N".to_string(),
        physical_size: Size { w: 300, h: 200 },
        modes: vec![],
        current_mode: None,
        preferred_mode: None,
        location: Point { x: 0, y: 0 },
        transform: OutputTransform::Normal,
        scale: Scale::Integer { factor: 1 },
    });
    for id in [10, 11] {
        s.window_meta.insert(
            id,
            WindowMeta {
                title: format!("title {}", id),
                app_id: "app".to_string(),
                workspace: 0,
                is_minimized: false,
                is_fullscreen: false,
            },
        );
    }
    s
}

fn desktop() -> Desktop {
    Desktop {
        windows: vec![
            DesktopWindow {
                id: 10,
                surface: Some(100),
                kind: WindowKind::Toplevel { maximized: false },
                geometry: Some(Rectangle { loc: Point { x: -3, y: 4 }, size: Size { w: 640, h: 480 } }),
            },
            DesktopWindow { id: 11, surface: None, kind: WindowKind::X11, geometry: None },
        ],
        has_keyboard: true,
        keyboard_focus: Some(100),
        first_output_geometry: Some(Rectangle {
            loc: Point { x: 0, y: 0 },
            size: Size { w: 1001, h: 700 },
        }),
    }
}

fn send(s: &mut BlueState, msg: ShellMessage) -> Vec<ShellAction> {
    handle_shell_message(s, &desktop(), msg)
}

#[test]
fn focusing_raises_restores_and_focuses() {
    let mut s = state();
    send(&mut s, ShellMessage::MinimizeWindow { id: 10 });
    assert!(s.window_meta[&10].is_minimized);
    assert_eq!(
        send(&mut s, ShellMessage::FocusWindow { id: 10 }),
        vec![ShellAction::Raise { window: 10 }, ShellAction::Focus { window: 10 }]
    );
    assert!(!s.window_meta[&10].is_minimized);
    assert_eq!(
        send(&mut s, ShellMessage::FocusWindow { id: 11 }),
        vec![ShellAction::Raise { window: 11 }]
    );
    assert_eq!(send(&mut s, ShellMessage::FocusWindow { id: 12 }), vec![]);
}

#[test]
fn restoring_undoes_minimizing_a_window() {
    let mut s = state();
    assert_eq!(send(&mut s, ShellMessage::MinimizeWindow { id: 11 }), vec![]);
    assert_eq!(
        send(&mut s, ShellMessage::RestoreWindow { id: 11 }),
        vec![ShellAction::Raise { window: 11 }]
    );
    assert!(!s.window_meta[&11].is_minimized);
}

#[test]
fn closing_and_killing_ask_the_toplevel() {
    let mut s = state();
    let close = vec![ShellAction::SendClose { window: 10 }];
    assert_eq!(send(&mut s, ShellMessage::CloseWindow { id: 10 }), close);
    assert_eq!(send(&mut s, ShellMessage::KillWindow { id: 10 }), close);
    assert_eq!(send(&mut s, ShellMessage::CloseWindow { id: 11 }), vec![]);
}

#[test]
fn switching_workspaces_is_announced() {
    let mut s = state();
    assert_eq!(
        send(&mut s, ShellMessage::SwitchWorkspace { index: 2 }),
        vec![
            ShellAction::SwitchWorkspace { index: 2 },
            ShellAction::Broadcast {
                message: CompositorMessage::WorkspaceSwitched { index: 2, count: 4 },
            },
        ]
    );
    send(&mut s, ShellMessage::MoveWindowToWorkspace { id: 10, workspace: 3 });
    assert_eq!(s.window_meta[&10].workspace, 3);
}

#[test]
fn the_number_of_workspaces_is_clamped() {
    let mut s = state();
    send(&mut s, ShellMessage::SetWorkspaceCount { count: 0 });
    assert_eq!(s.workspace_count, 1);
    send(&mut s, ShellMessage::SetWorkspaceCount { count: 99 });
    assert_eq!(s.workspace_count, 10);
    s.current_workspace = 7;
    assert_eq!(
        send(&mut s, ShellMessage::SetWorkspaceCount { count: 3 }),
        vec![ShellAction::SwitchWorkspace { index: 2 }, ShellAction::AnnounceWorkspace { count: 3 }]
    );
    s.current_workspace = 2;
    assert_eq!(
        send(&mut s, ShellMessage::SetWorkspaceCount { count: 3 }),
        vec![ShellAction::AnnounceWorkspace { count: 3 }]
    );
    assert_eq!(
        s.workspace_announcement(3),
        CompositorMessage::WorkspaceSwitched { index: 2, count: 3 }
    );
}

#[test]
fn maximizing_and_fullscreen_configure_the_toplevel() {
    let mut s = state();
    assert_eq!(
        send(&mut s, ShellMessage::ToggleMaximize { id: 10 }),
        vec![ShellAction::ConfigureMaximized { window: 10, maximized: true }]
    );
    assert_eq!(send(&mut s, ShellMessage::ToggleMaximize { id: 11 }), vec![]);
    assert_eq!(
        send(&mut s, ShellMessage::SetFullscreen { id: 10, fullscreen: true }),
        vec![ShellAction::ConfigureFullscreen { window: 10, fullscreen: true }]
    );
    assert!(s.window_meta[&10].is_fullscreen);
    assert_eq!(send(&mut s, ShellMessage::SetFullscreen { id: 11, fullscreen: true }), vec![]);
    assert!(s.window_meta[&11].is_fullscreen);
}

#[test]
fn tiles_stay_below_the_panel() {
    let mut s = state();
    let tile = |position: &str| ShellMessage::TileWindow { id: 10, position: position.to_string() };
    assert_eq!(
        send(&mut s, tile("left")),
        vec![
            ShellAction::MapElement { window: 10, location: Point { x: 0, y: 30 } },
            ShellAction::ConfigureSize { window: 10, size: Size { w: 500, h: 670 } },
        ]
    );
    assert_eq!(
        send(&mut s, tile("right")),
        vec![
            ShellAction::MapElement { window: 10, location: Point { x: 500, y: 30 } },
            ShellAction::ConfigureSize { window: 10, size: Size { w: 500, h: 670 } },
        ]
    );
    assert_eq!(
        send(&mut s, tile("full")),
        vec![
            ShellAction::MapElement { window: 10, location: Point { x: 0, y: 30 } },
            ShellAction::ConfigureSize { window: 10, size: Size { w: 1001, h: 670 } },
        ]
    );
    assert_eq!(send(&mut s, tile("top")), vec![]);
    assert_eq!(
        send(&mut s, ShellMessage::TileWindow { id: 11, position: "left".to_string() }),
        vec![ShellAction::MapElement { window: 11, location: Point { x: 0, y: 30 } }]
    );
    s.outputs.clear();
    assert_eq!(send(&mut s, tile("left")), vec![]);
}

#[test]
fn tile_placement_rounds_toward_zero() {
    let area = Rectangle { loc: Point { x: 10, y: 20 }, size: Size { w: 7, h: 100 } };
    assert_eq!(
        tile_placement(area, &"right".to_string()),
        Some((Point { x: 13, y: 50 }, Size { w: 3, h: 70 }))
    );
    let negative = Rectangle { loc: Point { x: 0, y: 0 }, size: Size { w: -7, h: 0 } };
    assert_eq!(
        tile_placement(negative, &"left".to_string()),
        Some((Point { x: 0, y: 30 }, Size { w: -3, h: -30 }))
    );
}

#[test]
fn screenshots_run_a_command() {
    let mut s = state();
    let shot = |mode: &str| ShellMessage::TakeScreenshot {
        path: "/tmp/a.png".to_string(),
        mode: mode.to_string(),
    };
    assert_eq!(
        send(&mut s, shot("focused")),
        vec![ShellAction::Capture {
            command: "grim -g '-3,4 640x480' /tmp/a.png 2>/dev/null".to_string(),
            path: "/tmp/a.png".to_string(),
        }]
    );
    assert_eq!(
        send(&mut s, shot("full")),
        vec![ShellAction::Capture {
            command: "grim /tmp/a.png 2>/dev/null || import -window root /tmp/a.png 2>/dev/null"
                .to_string(),
            path: "/tmp/a.png".to_string(),
        }]
    );
    assert_eq!(screenshot_command(None, "b"), "grim b 2>/dev/null || import -window root b 2>/dev/null");
    assert_eq!(
        screenshot_reply(true, "p".to_string()),
        CompositorMessage::ScreenshotReady { path: "p".to_string() }
    );
    assert_eq!(
        screenshot_reply(false, "p".to_string()),
        CompositorMessage::Error { message: "Screenshot failed".to_string() }
    );
}

#[test]
fn settings_messages_reach_the_system() {
    let mut s = state();
    send(&mut s, ShellMessage::SetDpmsTimeout { seconds: 77 });
    assert_eq!(s.dpms_timeout, 77);
    assert_eq!(
        send(&mut s, ShellMessage::LockScreen),
        vec![ShellAction::Spawn {
            command: "blue-lock 2>/dev/null || swaylock 2>/dev/null || gtklock 2>/dev/null || i3lock 2>/dev/null &".to_string(),
        }]
    );
    assert_eq!((KEY_REPEAT_DELAY, KEY_REPEAT_RATE), (400, 30));
    assert_eq!(
        send(
            &mut s,
            ShellMessage::SetKeyboardLayout { layout: "de".to_string(), variant: Some("neo".to_string()) }
        ),
        vec![ShellAction::AddKeyboard {
            layout: "de".to_string(),
            variant: Some("neo".to_string()),
            repeat_delay: 400,
            repeat_rate: 30,
        }]
    );
    assert_eq!(
        send(&mut s, ShellMessage::SetCursor { theme: "Adwaita".to_string(), size: 24 }),
        vec![
            ShellAction::SetEnv { key: "XCURSOR_THEME".to_string(), value: "Adwaita".to_string() },
            ShellAction::SetEnv { key: "XCURSOR_SIZE".to_string(), value: "24".to_string() },
        ]
    );
    assert_eq!(
        send(&mut s, ShellMessage::SetHdrEnabled { output: "DP-1".to_string(), enabled: true }),
        vec![ShellAction::Broadcast {
            message: CompositorMessage::HdrStateChanged {
                output: "DP-1".to_string(),
                hdr_active: false,
            },
        }]
    );
    assert_eq!(send(&mut s, ShellMessage::GetWindowList), vec![]);
    assert_eq!(send(&mut s, ShellMessage::ReloadConfig), vec![]);
}

#[test]
fn the_socket_lies_in_the_runtime_directory() {
    assert_eq!(ipc_socket_path(Some("/run/user/7".to_string()), 1), "/run/user/7/blue-compositor.sock");
    assert_eq!(ipc_socket_path(Some("/tmp/".to_string()), 1), "/tmp/blue-compositor.sock");
    assert_eq!(ipc_socket_path(Some("".to_string()), 1), "blue-compositor.sock");
    assert_eq!(ipc_socket_path(None, 1000), "/run/user/1000/blue-compositor.sock");
}

#[test]
fn new_clients_are_greeted() {
    let mut clients = vec![5];
    let step = accept(&mut clients, AcceptOutcome::Accepted { client: 6 }, "wayland-1");
    assert!(step.again);
    assert_eq!(step.greeting, Some(CompositorMessage::Ready { socket: "wayland-1".to_string() }));
    assert_eq!(clients, vec![5, 6]);
    for outcome in [AcceptOutcome::WouldBlock, AcceptOutcome::Failed] {
        let step = accept(&mut clients, outcome, "wayland-1");
        assert!(!step.again);
        assert_eq!(step.greeting, None);
        assert_eq!(clients, vec![5, 6]);
    }
}

#[test]
fn a_poll_round_collects_texts_and_drops_the_gone() {
    let mut clients = vec![50, 51, 52, 53, 54];
    let mut round = PollRound::new();
    let line = |text: &str| ReadOutcome::Line { text: text.to_string() };
    assert!(round.read(line("  {\"a\":1}\r\n")));
    assert!(round.read(line("   \n")));
    assert!(!round.read(ReadOutcome::Closed));
    assert!(!round.read(ReadOutcome::CloneFailed));
    assert!(round.read(line("second\n")));
    assert!(!round.read(ReadOutcome::WouldBlock));
    assert!(!round.read(ReadOutcome::WouldBlock));
    assert!(!round.read(ReadOutcome::Failed));
    assert_eq!(round.client, 5);
    assert_eq!(round.texts, vec!["{\"a\":1}".to_string(), "second".to_string()]);
    assert_eq!(round.to_remove, vec![0, 1, 4]);
    round.disconnect(&mut clients);
    assert_eq!(clients, vec![52, 53]);
}

#[test]
fn the_last_client_takes_the_place_of_one_that_left() {
    let mut clients = vec![1, 2, 3, 4];
    let mut round = PollRound::new();
    assert!(!round.read(ReadOutcome::WouldBlock));
    assert!(!round.read(ReadOutcome::Closed));
    assert!(!round.read(ReadOutcome::WouldBlock));
    assert!(!round.read(ReadOutcome::WouldBlock));
    round.disconnect(&mut clients);
    assert_eq!(clients, vec![1, 4, 3]);
}

#[test]
fn a_broadcast_keeps_those_it_reached() {
    let mut clients = vec![1, 2, 3];
    broadcast(&mut clients, &vec![true, false, true]);
    assert_eq!(clients, vec![1, 3]);
    broadcast(&mut clients, &vec![true, true]);
    assert_eq!(clients, vec![1, 3]);
    broadcast(&mut clients, &vec![false, false]);
    assert!(clients.is_empty());
}

#[test]
fn messages_are_framed_as_lines() {
    assert_eq!(frame("{}".to_string()), "{}\n");
}

#[test]
fn broadcast_helpers_build_their_messages() {
    let window = WindowInfo {
        id: 3,
        title: "t".to_string(),
        app_id: "a".to_string(),
        workspace: 1,
        is_minimized: false,
        is_fullscreen: true,
    };
    assert_eq!(
        broadcast_workspace_switch(1, 4),
        CompositorMessage::WorkspaceSwitched { index: 1, count: 4 }
    );
    assert_eq!(broadcast_start_menu_toggle(), CompositorMessage::ToggleStartMenu);
    assert_eq!(
        broadcast_window_opened(window.clone()),
        CompositorMessage::WindowOpened { window: window.clone() }
    );
    assert_eq!(broadcast_window_closed(3), CompositorMessage::WindowClosed { id: 3 });
    assert_eq!(broadcast_idle_changed(true), CompositorMessage::IdleChanged { idle: true });
    assert_eq!(broadcast_screen_locked(false), CompositorMessage::ScreenLocked { locked: false });
    assert_eq!(window_list(vec![]), None);
    assert_eq!(
        window_list(vec![window.clone()]),
        Some(CompositorMessage::WindowList { windows: vec![window] })
    );
}
