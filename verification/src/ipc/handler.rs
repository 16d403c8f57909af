//! What the compositor does on a message from the shell.

use crate::geometry::{fits_i32, half, halve, Point, Rectangle, Size};
use crate::ipc::messages::{CompositorMessage, CompositorMessageView, ShellMessage};
use crate::state::{
    focused_window, window_with_id, with_fullscreen, with_minimized, with_workspace, BlueState,
    Desktop, DesktopWindow, WindowKind, WindowMeta,
};
use crate::text::{decimal, decimal_text, signed_decimal, signed_decimal_text};
use vstd::prelude::*;

verus! {

/// The height of the panel that tiled windows stay clear of.
pub const PANEL_HEIGHT: i32 = 30;

/// The most workspaces that the shell can ask for.
pub const MAX_WORKSPACES: usize = 10;

/// Milliseconds before a held key repeats.
pub const KEY_REPEAT_DELAY: i32 = 400;

/// Repeats per second of a held key.
pub const KEY_REPEAT_RATE: i32 = 30;

/// One thing to carry out for a shell message. A list of actions is carried out
/// in order.
#[derive(Debug, Clone, PartialEq, Eq)]
pub enum ShellAction {
    /// Raise the window and activate it.
    Raise { window: u64 },
    /// Give the keyboard focus to the window's surface.
    Focus { window: u64 },
    /// Ask the toplevel to close.
    SendClose { window: u64 },
    SwitchWorkspace { index: usize },
    /// Broadcast the workspace that is current by then, with this count.
    AnnounceWorkspace { count: usize },
    Broadcast { message: CompositorMessage },
    /// Set or unset the maximized state and send a configure.
    ConfigureMaximized { window: u64, maximized: bool },
    /// Set or unset the fullscreen state and send a configure.
    ConfigureFullscreen { window: u64, fullscreen: bool },
    /// Place the window and activate it.
    MapElement { window: u64, location: Point },
    /// Set the size and send a configure.
    ConfigureSize { window: u64, size: Size },
    /// Run the command in a shell and leave it running.
    Spawn { command: String },
    /// Run the command in a shell, off the event loop, and broadcast
    /// [`screenshot_reply`] once it has ended.
    Capture { command: String, path: String },
    AddKeyboard {
        layout: String,
        variant: Option<String>,
        repeat_delay: i32,
        repeat_rate: i32,
    },
    SetEnv { key: String, value: String },
}

/// [`ShellAction`] with its text as sequences of characters.
pub enum ShellActionView {
    Raise { window: u64 },
    Focus { window: u64 },
    SendClose { window: u64 },
    SwitchWorkspace { index: usize },
    AnnounceWorkspace { count: usize },
    Broadcast { message: CompositorMessageView },
    ConfigureMaximized { window: u64, maximized: bool },
    ConfigureFullscreen { window: u64, fullscreen: bool },
    MapElement { window: u64, location: Point },
    ConfigureSize { window: u64, size: Size },
    Spawn { command: Seq<char> },
    Capture { command: Seq<char>, path: Seq<char> },
    AddKeyboard {
        layout: Seq<char>,
        variant: Option<Seq<char>>,
        repeat_delay: i32,
        repeat_rate: i32,
    },
    SetEnv { key: Seq<char>, value: Seq<char> },
}

/// The characters of an optional text.
pub open spec fn text_view(text: Option<String>) -> Option<Seq<char>> {
    match text {
        Some(t) => Some(t@),
        None => None,
    }
}

impl View for ShellAction {
    type V = ShellActionView;

    open spec fn view(&self) -> ShellActionView {
        match *self {
            ShellAction::Raise { window } => ShellActionView::Raise { window },
            ShellAction::Focus { window } => ShellActionView::Focus { window },
            ShellAction::SendClose { window } => ShellActionView::SendClose { window },
            ShellAction::SwitchWorkspace { index } => ShellActionView::SwitchWorkspace { index },
            ShellAction::AnnounceWorkspace { count } => ShellActionView::AnnounceWorkspace {
                count,
            },
            ShellAction::Broadcast { message } => ShellActionView::Broadcast { message: message@ },
            ShellAction::ConfigureMaximized {
                window,
                maximized,
            } => ShellActionView::ConfigureMaximized { window, maximized },
            ShellAction::ConfigureFullscreen {
                window,
                fullscreen,
            } => ShellActionView::ConfigureFullscreen { window, fullscreen },
            ShellAction::MapElement { window, location } => ShellActionView::MapElement {
                window,
                location,
            },
            ShellAction::ConfigureSize { window, size } => ShellActionView::ConfigureSize {
                window,
                size,
            },
            ShellAction::Spawn { command } => ShellActionView::Spawn { command: command@ },
            ShellAction::Capture { command, path } => ShellActionView::Capture {
                command: command@,
                path: path@,
            },
            ShellAction::AddKeyboard {
                layout,
                variant,
                repeat_delay,
                repeat_rate,
            } => ShellActionView::AddKeyboard {
                layout: layout@,
                variant: text_view(variant),
                repeat_delay,
                repeat_rate,
            },
            ShellAction::SetEnv { key, value } => ShellActionView::SetEnv {
                key: key@,
                value: value@,
            },
        }
    }
}

/// The views of a list of actions.
pub open spec fn action_views(actions: Seq<ShellAction>) -> Seq<ShellActionView> {
    actions.map_values(|a: ShellAction| a@)
}

/// `count`, brought into the range of workspace counts.
pub open spec fn clamped_count(count: usize) -> usize {
    if count < 1 {
        1
    } else if count > MAX_WORKSPACES {
        MAX_WORKSPACES
    } else {
        count
    }
}

/// Raising a window and giving it the keyboard, where there is a keyboard and
/// the window has a surface.
pub open spec fn activation(desktop: Desktop, window: DesktopWindow) -> Seq<ShellActionView> {
    if window.surface is Some && desktop.has_keyboard {
        seq![
            ShellActionView::Raise { window: window.id },
            ShellActionView::Focus { window: window.id },
        ]
    } else {
        seq![ShellActionView::Raise { window: window.id }]
    }
}

/// Whether a window can be tiled to `position` in `area` without a coordinate
/// leaving the range of an `i32`. A position that is not known asks nothing.
pub open spec fn tile_fits(area: Rectangle, position: Seq<char>) -> bool {
    &&& (position == "left"@ || position == "right"@ || position == "full"@) ==> {
        &&& fits_i32(area.loc.y + PANEL_HEIGHT)
        &&& fits_i32(area.size.h - PANEL_HEIGHT)
    }
    &&& position == "right"@ ==> fits_i32(area.loc.x + half(area.size.w as int))
}

/// Where a window goes that is tiled to `position` in `area`: below the panel,
/// in the left half, the right half or all of the rest. No other position
/// means anything.
pub open spec fn tile(area: Rectangle, position: Seq<char>) -> Option<(Point, Size)> {
    let half_width = half(area.size.w as int) as i32;
    let top = (area.loc.y + PANEL_HEIGHT) as i32;
    let height = (area.size.h - PANEL_HEIGHT) as i32;
    if position == "left"@ {
        Some((Point { x: area.loc.x, y: top }, Size { w: half_width, h: height }))
    } else if position == "right"@ {
        Some(
            (
                Point { x: (area.loc.x + half(area.size.w as int)) as i32, y: top },
                Size { w: half_width, h: height },
            ),
        )
    } else if position == "full"@ {
        Some((Point { x: area.loc.x, y: top }, Size { w: area.size.w, h: height }))
    } else {
        None
    }
}

/// The area that windows are tiled in.
pub open spec fn tiling_area(desktop: Desktop) -> Rectangle {
    match desktop.first_output_geometry {
        Some(area) => area,
        None => crate::geometry::empty_rectangle(),
    }
}

/// The shell command that captures `region`, or every output, into the file
/// `path`.
pub open spec fn capture_command(region: Option<Rectangle>, path: Seq<char>) -> Seq<char> {
    match region {
        Some(geo) => "grim -g '"@ + signed_decimal(geo.loc.x as int) + ","@ + signed_decimal(
            geo.loc.y as int,
        ) + " "@ + signed_decimal(geo.size.w as int) + "x"@ + signed_decimal(geo.size.h as int)
            + "' "@ + path + " 2>/dev/null"@,
        None => "grim "@ + path + " 2>/dev/null || import -window root "@ + path
            + " 2>/dev/null"@,
    }
}

/// The region that a screenshot in `mode` is cut to: the focused window, where
/// that is asked for and there is one.
pub open spec fn capture_region(desktop: Desktop, mode: Seq<char>) -> Option<Rectangle> {
    if mode == "focused"@ {
        match focused_window(desktop) {
            Some(window) => window.geometry,
            None => None,
        }
    } else {
        None
    }
}

/// What the shell is told once a screenshot command has ended.
pub open spec fn screenshot_outcome(ok: bool, path: Seq<char>) -> CompositorMessageView {
    if ok {
        CompositorMessageView::ScreenshotReady { path }
    } else {
        CompositorMessageView::Error { message: "Screenshot failed"@ }
    }
}

/// The shell command that locks the screen with whichever locker is installed.
pub open spec fn lock_command() -> Seq<char> {
    "blue-lock 2>/dev/null || swaylock 2>/dev/null || gtklock 2>/dev/null || i3lock 2>/dev/null &"@
}

/// What is carried out for `msg`.
pub open spec fn shell_actions(state: BlueState, desktop: Desktop, msg: ShellMessage) -> Seq<
    ShellActionView,
> {
    match msg {
        ShellMessage::FocusWindow { id } => match window_with_id(desktop, id) {
            Some(window) => activation(desktop, window),
            None => Seq::empty(),
        },
        ShellMessage::CloseWindow { id } => close_actions(desktop, id),
        ShellMessage::KillWindow { id } => close_actions(desktop, id),
        ShellMessage::SwitchWorkspace { index } => seq![
            ShellActionView::SwitchWorkspace { index },
            ShellActionView::Broadcast {
                message: CompositorMessageView::WorkspaceSwitched {
                    index,
                    count: state.workspace_count,
                },
            },
        ],
        ShellMessage::MoveWindowToWorkspace { .. } => Seq::empty(),
        ShellMessage::ToggleMaximize { id } => match window_with_id(desktop, id) {
            Some(window) => match window.kind {
                WindowKind::Toplevel { maximized } => seq![
                    ShellActionView::ConfigureMaximized { window: id, maximized: !maximized },
                ],
                _ => Seq::empty(),
            },
            None => Seq::empty(),
        },
        ShellMessage::MinimizeWindow { .. } => Seq::empty(),
        ShellMessage::RestoreWindow { id } => match window_with_id(desktop, id) {
            Some(window) => activation(desktop, window),
            None => Seq::empty(),
        },
        ShellMessage::SetFullscreen { id, fullscreen } => match window_with_id(desktop, id) {
            Some(window) => match window.kind {
                WindowKind::Toplevel { .. } => seq![
                    ShellActionView::ConfigureFullscreen { window: id, fullscreen },
                ],
                _ => Seq::empty(),
            },
            None => Seq::empty(),
        },
        ShellMessage::TileWindow { id, position } => tile_actions(state, desktop, id, position@),
        ShellMessage::GetWindowList => Seq::empty(),
        ShellMessage::SetWorkspaceCount { count } => {
            let n = clamped_count(count);
            if state.current_workspace >= n {
                seq![
                    ShellActionView::SwitchWorkspace { index: (n - 1) as usize },
                    ShellActionView::AnnounceWorkspace { count: n },
                ]
            } else {
                seq![ShellActionView::AnnounceWorkspace { count: n }]
            }
        },
        ShellMessage::SetDpmsTimeout { .. } => Seq::empty(),
        ShellMessage::LockScreen => seq![ShellActionView::Spawn { command: lock_command() }],
        ShellMessage::TakeScreenshot { path, mode } => seq![
            ShellActionView::Capture {
                command: capture_command(capture_region(desktop, mode@), path@),
                path: path@,
            },
        ],
        ShellMessage::SetKeyboardLayout { layout, variant } => seq![
            ShellActionView::AddKeyboard {
                layout: layout@,
                variant: text_view(variant),
                repeat_delay: KEY_REPEAT_DELAY,
                repeat_rate: KEY_REPEAT_RATE,
            },
        ],
        ShellMessage::SetCursor { theme, size } => seq![
            ShellActionView::SetEnv { key: "XCURSOR_THEME"@, value: theme@ },
            ShellActionView::SetEnv { key: "XCURSOR_SIZE"@, value: decimal(size as nat) },
        ],
        ShellMessage::ReloadConfig => Seq::empty(),
        ShellMessage::SetHdrEnabled { output, .. } => seq![
            ShellActionView::Broadcast {
                message: CompositorMessageView::HdrStateChanged {
                    output: output@,
                    hdr_active: false,
                },
            },
        ],
    }
}

/// Closing a window is asked of its toplevel.
pub open spec fn close_actions(desktop: Desktop, id: u64) -> Seq<ShellActionView> {
    match window_with_id(desktop, id) {
        Some(window) => match window.kind {
            WindowKind::Toplevel { .. } => seq![ShellActionView::SendClose { window: id }],
            _ => Seq::empty(),
        },
        None => Seq::empty(),
    }
}

/// Tiling a window places it and, where it is a toplevel, resizes it.
pub open spec fn tile_actions(
    state: BlueState,
    desktop: Desktop,
    id: u64,
    position: Seq<char>,
) -> Seq<ShellActionView> {
    match (tile(tiling_area(desktop), position), window_with_id(desktop, id)) {
        (Some((location, size)), Some(window)) if state.outputs@.len() > 0 => match window.kind {
            WindowKind::Toplevel { .. } => seq![
                ShellActionView::MapElement { window: id, location },
                ShellActionView::ConfigureSize { window: id, size },
            ],
            _ => seq![ShellActionView::MapElement { window: id, location }],
        },
        _ => Seq::empty(),
    }
}

/// What is remembered of the windows after `msg`.
pub open spec fn shell_meta(
    meta: Map<u64, WindowMeta>,
    desktop: Desktop,
    msg: ShellMessage,
) -> Map<u64, WindowMeta> {
    match msg {
        ShellMessage::FocusWindow { id } => if window_with_id(desktop, id) is Some {
            with_minimized(meta, id, false)
        } else {
            meta
        },
        ShellMessage::MoveWindowToWorkspace { id, workspace } => with_workspace(
            meta,
            id,
            workspace,
        ),
        ShellMessage::MinimizeWindow { id } => with_minimized(meta, id, true),
        ShellMessage::RestoreWindow { id } => with_minimized(meta, id, false),
        ShellMessage::SetFullscreen { id, fullscreen } => if window_with_id(
            desktop,
            id,
        ) is Some {
            with_fullscreen(meta, id, fullscreen)
        } else {
            meta
        },
        _ => meta,
    }
}

/// The number of workspaces after `msg`.
pub open spec fn shell_workspace_count(count: usize, msg: ShellMessage) -> usize {
    match msg {
        ShellMessage::SetWorkspaceCount { count: asked } => clamped_count(asked),
        _ => count,
    }
}

/// The blanking timeout after `msg`.
pub open spec fn shell_dpms_timeout(timeout: u64, msg: ShellMessage) -> u64 {
    match msg {
        ShellMessage::SetDpmsTimeout { seconds } => seconds,
        _ => timeout,
    }
}

fn activate(desktop: &Desktop, window: DesktopWindow) -> (actions: Vec<ShellAction>)
    ensures
        action_views(actions@) == activation(*desktop, window),
{
    let mut actions: Vec<ShellAction> = Vec::new();
    actions.push(ShellAction::Raise { window: window.id });
    if window.surface.is_some() && desktop.has_keyboard {
        actions.push(ShellAction::Focus { window: window.id });
    }
    assert(action_views(actions@) =~= activation(*desktop, window));
    actions
}

fn close(desktop: &Desktop, id: u64) -> (actions: Vec<ShellAction>)
    ensures
        action_views(actions@) == close_actions(*desktop, id),
{
    let mut actions: Vec<ShellAction> = Vec::new();
    match desktop.window_by_id(id) {
        Some(window) => match window.kind {
            WindowKind::Toplevel { maximized: _ } => {
                actions.push(ShellAction::SendClose { window: id });
            },
            _ => {},
        },
        None => {},
    }
    assert(action_views(actions@) =~= close_actions(*desktop, id));
    actions
}

/// Places a tiled window.
pub fn tile_placement(area: Rectangle, position: &String) -> (placement: Option<(Point, Size)>)
    requires
        tile_fits(area, position@),
    ensures
        placement == tile(area, position@),
{
    if *position == "left".to_string() {
        Some(
            (
                Point { x: area.loc.x, y: area.loc.y + PANEL_HEIGHT },
                Size { w: halve(area.size.w), h: area.size.h - PANEL_HEIGHT },
            ),
        )
    } else if *position == "right".to_string() {
        Some(
            (
                Point { x: area.loc.x + halve(area.size.w), y: area.loc.y + PANEL_HEIGHT },
                Size { w: halve(area.size.w), h: area.size.h - PANEL_HEIGHT },
            ),
        )
    } else if *position == "full".to_string() {
        Some(
            (
                Point { x: area.loc.x, y: area.loc.y + PANEL_HEIGHT },
                Size { w: area.size.w, h: area.size.h - PANEL_HEIGHT },
            ),
        )
    } else {
        None
    }
}

/// Writes the command that takes a screenshot.
pub fn screenshot_command(region: Option<Rectangle>, path: &str) -> (command: String)
    ensures
        command@ == capture_command(region, path@),
{
    match region {
        Some(geo) => "grim -g '".to_string().concat(
            signed_decimal_text(geo.loc.x).as_str(),
        ).concat(",").concat(signed_decimal_text(geo.loc.y).as_str()).concat(" ").concat(
            signed_decimal_text(geo.size.w).as_str(),
        ).concat("x").concat(signed_decimal_text(geo.size.h).as_str()).concat("' ").concat(
            path,
        ).concat(" 2>/dev/null"),
        None => "grim ".to_string().concat(path).concat(
            " 2>/dev/null || import -window root ",
        ).concat(path).concat(" 2>/dev/null"),
    }
}

/// What the shell is told once a screenshot command has ended.
pub fn screenshot_reply(ok: bool, path: String) -> (message: CompositorMessage)
    ensures
        message@ == screenshot_outcome(ok, path@),
        message is ScreenshotReady <==> ok,
        message is Error <==> !ok,
{
    if ok {
        CompositorMessage::ScreenshotReady { path }
    } else {
        CompositorMessage::Error { message: "Screenshot failed".to_string() }
    }
}

impl BlueState {
    /// The message that announces the current workspace.
    pub fn workspace_announcement(&self, count: usize) -> (message: CompositorMessage)
        ensures
            message@ == (CompositorMessageView::WorkspaceSwitched {
                index: self.current_workspace,
                count,
            }),
            message matches CompositorMessage::WorkspaceSwitched { index, count: told } && index
                == self.current_workspace && told == count,
    {
        CompositorMessage::WorkspaceSwitched { index: self.current_workspace, count }
    }

    fn tile_window(&self, desktop: &Desktop, id: u64, position: &String) -> (actions: Vec<
        ShellAction,
    >)
        requires
            self.outputs@.len() > 0 ==> tile_fits(tiling_area(*desktop), position@),
        ensures
            action_views(actions@) == tile_actions(*self, *desktop, id, position@),
    {
        let mut actions: Vec<ShellAction> = Vec::new();
        if self.outputs.len() > 0 {
            let area = match desktop.first_output_geometry {
                Some(area) => area,
                None => Rectangle::default(),
            };
            match tile_placement(area, position) {
                Some((location, size)) => match desktop.window_by_id(id) {
                    Some(window) => {
                        actions.push(ShellAction::MapElement { window: id, location });
                        match window.kind {
                            WindowKind::Toplevel { maximized: _ } => {
                                actions.push(ShellAction::ConfigureSize { window: id, size });
                            },
                            _ => {},
                        }
                    },
                    None => {},
                },
                None => {},
            }
        }
        assert(action_views(actions@) =~= tile_actions(*self, *desktop, id, position@));
        actions
    }
}

/// Takes in a message from the shell: updates the state and returns what has
/// to be carried out.
pub fn handle_shell_message(
    state: &mut BlueState,
    desktop: &Desktop,
    msg: ShellMessage,
) -> (actions: Vec<ShellAction>)
    requires
        msg matches ShellMessage::TileWindow { position, .. } ==> (old(state).outputs@.len() > 0
            ==> tile_fits(tiling_area(*desktop), position@)),
    ensures
        action_views(actions@) == shell_actions(*old(state), *desktop, msg),
        final(state).window_meta@ == shell_meta(old(state).window_meta@, *desktop, msg),
        final(state).workspace_count == shell_workspace_count(old(state).workspace_count, msg),
        final(state).dpms_timeout == shell_dpms_timeout(old(state).dpms_timeout, msg),
        *final(state) == (BlueState {
            window_meta: final(state).window_meta,
            workspace_count: final(state).workspace_count,
            dpms_timeout: final(state).dpms_timeout,
            ..*old(state)
        }),
{
    let ghost before = *state;
    let mut actions: Vec<ShellAction> = Vec::new();
    match msg {
        ShellMessage::FocusWindow { id } => match desktop.window_by_id(id) {
            Some(window) => {
                actions = activate(desktop, window);
                state.set_minimized(id, false);
            },
            None => {},
        },
        ShellMessage::CloseWindow { id } => {
            actions = close(desktop, id);
        },
        ShellMessage::KillWindow { id } => {
            actions = close(desktop, id);
        },
        ShellMessage::SwitchWorkspace { index } => {
            actions.push(ShellAction::SwitchWorkspace { index });
            actions.push(
                ShellAction::Broadcast {
                    message: CompositorMessage::WorkspaceSwitched {
                        index,
                        count: state.workspace_count,
                    },
                },
            );
        },
        ShellMessage::MoveWindowToWorkspace { id, workspace } => {
            state.set_workspace(id, workspace);
        },
        ShellMessage::ToggleMaximize { id } => match desktop.window_by_id(id) {
            Some(window) => match window.kind {
                WindowKind::Toplevel { maximized } => {
                    actions.push(
                        ShellAction::ConfigureMaximized { window: id, maximized: !maximized },
                    );
                },
                _ => {},
            },
            None => {},
        },
        ShellMessage::MinimizeWindow { id } => {
            state.set_minimized(id, true);
        },
        ShellMessage::RestoreWindow { id } => {
            state.set_minimized(id, false);
            match desktop.window_by_id(id) {
                Some(window) => {
                    actions = activate(desktop, window);
                },
                None => {},
            }
        },
        ShellMessage::SetFullscreen { id, fullscreen } => match desktop.window_by_id(id) {
            Some(window) => {
                match window.kind {
                    WindowKind::Toplevel { maximized: _ } => {
                        actions.push(
                            ShellAction::ConfigureFullscreen { window: id, fullscreen },
                        );
                    },
                    _ => {},
                }
                state.set_fullscreen(id, fullscreen);
            },
            None => {},
        },
        ShellMessage::TileWindow { id, position } => {
            actions = state.tile_window(desktop, id, &position);
        },
        ShellMessage::GetWindowList => {},
        ShellMessage::SetWorkspaceCount { count } => {
            let n: usize = if count < 1 {
                1
            } else if count > MAX_WORKSPACES {
                MAX_WORKSPACES
            } else {
                count
            };
            state.workspace_count = n;
            if state.current_workspace >= n {
                actions.push(ShellAction::SwitchWorkspace { index: n - 1 });
            }
            actions.push(ShellAction::AnnounceWorkspace { count: n });
        },
        ShellMessage::SetDpmsTimeout { seconds } => {
            state.dpms_timeout = seconds;
        },
        ShellMessage::LockScreen => {
            actions.push(
                ShellAction::Spawn {
                    command:
                        "blue-lock 2>/dev/null || swaylock 2>/dev/null || gtklock 2>/dev/null || i3lock 2>/dev/null &".to_string(),
                },
            );
        },
        ShellMessage::TakeScreenshot { path, mode } => {
            let region: Option<Rectangle> = if mode == "focused".to_string() {
                match desktop.focused_window() {
                    Some(window) => window.geometry,
                    None => None,
                }
            } else {
                None
            };
            let command = screenshot_command(region, path.as_str());
            actions.push(ShellAction::Capture { command, path });
        },
        ShellMessage::SetKeyboardLayout { layout, variant } => {
            actions.push(
                ShellAction::AddKeyboard {
                    layout,
                    variant,
                    repeat_delay: KEY_REPEAT_DELAY,
                    repeat_rate: KEY_REPEAT_RATE,
                },
            );
        },
        ShellMessage::SetCursor { theme, size } => {
            actions.push(
                ShellAction::SetEnv { key: "XCURSOR_THEME".to_string(), value: theme },
            );
            actions.push(
                ShellAction::SetEnv {
                    key: "XCURSOR_SIZE".to_string(),
                    value: decimal_text(size as u64),
                },
            );
        },
        ShellMessage::ReloadConfig => {},
        ShellMessage::SetHdrEnabled { output, enabled: _ } => {
            actions.push(
                ShellAction::Broadcast {
                    message: CompositorMessage::HdrStateChanged { output, hdr_active: false },
                },
            );
        },
    }
    assert(action_views(actions@) =~= shell_actions(before, *desktop, msg));
    actions
}

/// Whatever the shell asks for, there is at least one workspace and there are at
/// most [`MAX_WORKSPACES`].
pub proof fn workspace_count_stays_in_range(count: usize, msg: ShellMessage)
    requires
        1 <= count <= MAX_WORKSPACES,
    ensures
        1 <= shell_workspace_count(count, msg) <= MAX_WORKSPACES,
{
}

/// Setting the number of workspaces never leaves the user on one that is gone:
/// either the current workspace still exists, or the first thing that is carried
/// out is a switch to the last one that does.
pub proof fn current_workspace_still_exists(state: BlueState, desktop: Desktop, count: usize)
    ensures
        ({
            let msg = ShellMessage::SetWorkspaceCount { count };
            let n = shell_workspace_count(state.workspace_count, msg);
            if state.current_workspace < n {
                shell_actions(state, desktop, msg) == seq![
                    ShellActionView::AnnounceWorkspace { count: n },
                ]
            } else {
                shell_actions(state, desktop, msg) == seq![
                    ShellActionView::SwitchWorkspace { index: (n - 1) as usize },
                    ShellActionView::AnnounceWorkspace { count: n },
                ] && 0 <= n - 1 < n
            }
        }),
{
}

/// Killing a window asks no more of it than closing it.
pub proof fn killing_is_closing(state: BlueState, desktop: Desktop, id: u64)
    ensures
        shell_actions(state, desktop, ShellMessage::KillWindow { id }) == shell_actions(
            state,
            desktop,
            ShellMessage::CloseWindow { id },
        ),
{
}

/// Restoring a window undoes minimizing it.
pub proof fn restoring_undoes_minimizing(meta: Map<u64, WindowMeta>, desktop: Desktop, id: u64)
    requires
        meta.contains_key(id) ==> !meta[id].is_minimized,
    ensures
        shell_meta(
            shell_meta(meta, desktop, ShellMessage::MinimizeWindow { id }),
            desktop,
            ShellMessage::RestoreWindow { id },
        ) == meta,
{
    let after = shell_meta(
        shell_meta(meta, desktop, ShellMessage::MinimizeWindow { id }),
        desktop,
        ShellMessage::RestoreWindow { id },
    );
    if meta.contains_key(id) {
        assert(after[id] == meta[id]);
    }
    assert(after =~= meta);
}

/// Toggling the maximized state of a toplevel twice asks for the state that it
/// had at first, once the toplevel has taken the first request.
pub proof fn toggling_maximize_twice_restores(
    state: BlueState,
    before: Desktop,
    between: Desktop,
    id: u64,
    maximized: bool,
)
    requires
        window_with_id(before, id) matches Some(w) && w.kind == (WindowKind::Toplevel {
            maximized,
        }),
        window_with_id(between, id) matches Some(w) && w.kind == (WindowKind::Toplevel {
            maximized: !maximized,
        }),
    ensures
        shell_actions(state, before, ShellMessage::ToggleMaximize { id }) == seq![
            ShellActionView::ConfigureMaximized { window: id, maximized: !maximized },
        ],
        shell_actions(state, between, ShellMessage::ToggleMaximize { id }) == seq![
            ShellActionView::ConfigureMaximized { window: id, maximized },
        ],
{
}

/// Whether `msg` asks something of the window `id` on screen.
pub open spec fn is_about_window(msg: ShellMessage, id: u64) -> bool {
    match msg {
        ShellMessage::FocusWindow { id: asked } => asked == id,
        ShellMessage::CloseWindow { id: asked } => asked == id,
        ShellMessage::KillWindow { id: asked } => asked == id,
        ShellMessage::ToggleMaximize { id: asked } => asked == id,
        ShellMessage::RestoreWindow { id: asked } => asked == id,
        ShellMessage::SetFullscreen { id: asked, .. } => asked == id,
        ShellMessage::TileWindow { id: asked, .. } => asked == id,
        _ => false,
    }
}

/// Nothing is carried out for a window that is not on screen.
pub proof fn absent_window_is_left_alone(
    state: BlueState,
    desktop: Desktop,
    msg: ShellMessage,
    id: u64,
)
    requires
        is_about_window(msg, id),
        window_with_id(desktop, id) is None,
    ensures
        shell_actions(state, desktop, msg) == Seq::<ShellActionView>::empty(),
{
}

/// No message of the shell makes the compositor forget a window, learn of a new
/// one, or rename one.
pub proof fn window_records_are_kept(
    meta: Map<u64, WindowMeta>,
    desktop: Desktop,
    msg: ShellMessage,
    id: u64,
)
    ensures
        shell_meta(meta, desktop, msg).contains_key(id) == meta.contains_key(id),
        meta.contains_key(id) ==> {
            let after = shell_meta(meta, desktop, msg)[id];
            after.title == meta[id].title && after.app_id == meta[id].app_id
        },
{
}

/// The left and the right tile of an area meet without a gap, are equally wide,
/// lie below the panel, reach the bottom of the area, and leave at most one
/// column at its right unused.
pub proof fn tiles_split_the_area(area: Rectangle)
    requires
        tile_fits(area, "left"@),
        tile_fits(area, "right"@),
    ensures
        ({
            let (left_at, left_size) = tile(area, "left"@)->0;
            let (right_at, right_size) = tile(area, "right"@)->0;
            &&& tile(area, "left"@) is Some
            &&& tile(area, "right"@) is Some
            &&& left_at.x == area.loc.x
            &&& right_at.x == left_at.x + left_size.w
            &&& left_size == right_size
            &&& area.size.w >= 0 ==> 0 <= area.loc.x + area.size.w - (right_at.x + right_size.w)
                <= 1
            &&& left_at.y == right_at.y == area.loc.y + 30
            &&& left_at.y + left_size.h == area.loc.y + area.size.h
        }),
{
    reveal_strlit("left");
    reveal_strlit("right");
    assert("left"@.len() != "right"@.len());
}

/// A full tile takes all of the area but the panel.
pub proof fn full_tile_fills_the_area(area: Rectangle)
    requires
        tile_fits(area, "full"@),
    ensures
        ({
            let (at, size) = tile(area, "full"@)->0;
            &&& tile(area, "full"@) is Some
            &&& at.x == area.loc.x
            &&& size.w == area.size.w
            &&& at.y == area.loc.y + 30
            &&& at.y + size.h == area.loc.y + area.size.h
        }),
{
    reveal_strlit("left");
    reveal_strlit("right");
    reveal_strlit("full");
    assert("left"@[0] != "full"@[0]);
    assert("right"@.len() != "full"@.len());
}

/// What is asked for, of a toplevel on screen, by setting its fullscreen state: exactly one
/// configure, with the flag that the shell asked for, which is also what is remembered of
/// the window from then on. A window that is no toplevel is asked nothing, and the flag is
/// remembered all the same.
pub proof fn fullscreen_is_set_as_asked(
    state: BlueState,
    desktop: Desktop,
    id: u64,
    fullscreen: bool,
)
    requires
        window_with_id(desktop, id) is Some,
    ensures
        ({
            let msg = ShellMessage::SetFullscreen { id, fullscreen };
            let actions = shell_actions(state, desktop, msg);
            let before = state.window_meta@;
            let after = shell_meta(before, desktop, msg);
            &&& window_with_id(desktop, id)->0.kind is Toplevel ==> actions.len() == 1 && (
            actions[0] matches ShellActionView::ConfigureFullscreen { window, fullscreen: asked }
                && window == id && asked == fullscreen && (before.contains_key(id)
                ==> after[id].is_fullscreen == asked))
            &&& !(window_with_id(desktop, id)->0.kind is Toplevel) ==> actions.len() == 0
            &&& before.contains_key(id) ==> after[id].is_fullscreen == fullscreen
        }),
{
}

/// Setting the fullscreen state and unsetting it again brings the record of a window back,
/// and hands the window opposite flags.
pub proof fn unsetting_fullscreen_undoes_setting_it(
    state: BlueState,
    between: BlueState,
    desktop: Desktop,
    id: u64,
    fullscreen: bool,
)
    requires
        window_with_id(desktop, id) matches Some(w) && w.kind is Toplevel,
        state.window_meta@.contains_key(id) ==> state.window_meta@[id].is_fullscreen
            == !fullscreen,
    ensures
        ({
            let set = ShellMessage::SetFullscreen { id, fullscreen };
            let unset = ShellMessage::SetFullscreen { id, fullscreen: !fullscreen };
            &&& shell_meta(shell_meta(state.window_meta@, desktop, set), desktop, unset)
                == state.window_meta@
            &&& shell_actions(state, desktop, set) != shell_actions(between, desktop, unset)
        }),
{
    let set = ShellMessage::SetFullscreen { id, fullscreen };
    let unset = ShellMessage::SetFullscreen { id, fullscreen: !fullscreen };
    let after = shell_meta(shell_meta(state.window_meta@, desktop, set), desktop, unset);
    if state.window_meta@.contains_key(id) {
        assert(after[id] == state.window_meta@[id]);
    }
    assert(after =~= state.window_meta@);
    assert(shell_actions(state, desktop, set)[0] != shell_actions(between, desktop, unset)[0]);
}

/// Focusing or restoring a window on screen raises it, gives it the keyboard where there is
/// one and the window has a surface, and does nothing else.
pub proof fn focusing_raises_and_focuses(state: BlueState, desktop: Desktop, id: u64)
    requires
        window_with_id(desktop, id) is Some,
    ensures
        ({
            let window = window_with_id(desktop, id)->0;
            let actions = shell_actions(state, desktop, ShellMessage::FocusWindow { id });
            &&& actions == shell_actions(state, desktop, ShellMessage::RestoreWindow { id })
            &&& actions.len() >= 1 && actions[0] == (ShellActionView::Raise { window: id })
            &&& desktop.has_keyboard && window.surface is Some ==> actions.len() == 2 && actions[1]
                == (ShellActionView::Focus { window: id })
            &&& !desktop.has_keyboard || window.surface is None ==> actions.len() == 1
        }),
{
    crate::state::windows_are_found_by_their_identifier(desktop, id);
}

/// A window is minimized exactly by being asked to be, and shown again exactly by being
/// restored, or focused while it is on screen. No other message changes the flag.
pub proof fn minimized_windows_are_those_asked_to_be(
    meta: Map<u64, WindowMeta>,
    desktop: Desktop,
    msg: ShellMessage,
    id: u64,
)
    requires
        meta.contains_key(id),
    ensures
        shell_meta(meta, desktop, msg)[id].is_minimized == match msg {
            ShellMessage::MinimizeWindow { id: asked } => asked == id || meta[id].is_minimized,
            ShellMessage::RestoreWindow { id: asked } => asked != id && meta[id].is_minimized,
            ShellMessage::FocusWindow { id: asked } => !(asked == id && window_with_id(
                desktop,
                id,
            ) is Some) && meta[id].is_minimized,
            _ => meta[id].is_minimized,
        },
{
}

/// A window is on the workspace that it was last moved to, whether or not it is on screen,
/// and only moving it changes that.
pub proof fn windows_move_to_the_asked_workspace(
    meta: Map<u64, WindowMeta>,
    desktop: Desktop,
    msg: ShellMessage,
    id: u64,
)
    requires
        meta.contains_key(id),
    ensures
        shell_meta(meta, desktop, msg)[id].workspace == match msg {
            ShellMessage::MoveWindowToWorkspace { id: asked, workspace } if asked == id => workspace,
            _ => meta[id].workspace,
        },
        msg is MoveWindowToWorkspace || msg is MinimizeWindow ==> forall|state: BlueState|
            #![trigger shell_actions(state, desktop, msg)]
            shell_actions(state, desktop, msg).len() == 0,
{
}

/// A window is fullscreen as it was last asked to be, while on screen, and only that changes
/// the flag.
pub proof fn only_fullscreen_messages_change_the_flag(
    meta: Map<u64, WindowMeta>,
    desktop: Desktop,
    msg: ShellMessage,
    id: u64,
)
    requires
        meta.contains_key(id),
    ensures
        shell_meta(meta, desktop, msg)[id].is_fullscreen == match msg {
            ShellMessage::SetFullscreen { id: asked, fullscreen } if asked == id && window_with_id(
                desktop,
                id,
            ) is Some => fullscreen,
            _ => meta[id].is_fullscreen,
        },
{
}

/// Closing a window is asked of exactly that window, once, if it is a toplevel on screen.
pub proof fn closing_is_asked_of_the_toplevel(state: BlueState, desktop: Desktop, id: u64)
    ensures
        ({
            let actions = shell_actions(state, desktop, ShellMessage::CloseWindow { id });
            &&& (window_with_id(desktop, id) matches Some(w) && w.kind is Toplevel) ==> actions
                == seq![ShellActionView::SendClose { window: id }]
            &&& !(window_with_id(desktop, id) matches Some(w) && w.kind is Toplevel)
                ==> actions.len() == 0
        }),
{
}

/// Toggling the maximized state asks a toplevel on screen for the state that it does not
/// have, and asks nothing of any other window.
pub proof fn toggling_maximize_asks_for_the_other_state(
    state: BlueState,
    desktop: Desktop,
    id: u64,
)
    ensures
        ({
            let actions = shell_actions(state, desktop, ShellMessage::ToggleMaximize { id });
            match window_with_id(desktop, id) {
                Some(w) => match w.kind {
                    WindowKind::Toplevel { maximized } => actions.len() == 1 && (
                    actions[0] matches ShellActionView::ConfigureMaximized {
                        window,
                        maximized: asked,
                    } && window == id && asked != maximized),
                    _ => actions.len() == 0,
                },
                None => actions.len() == 0,
            }
        }),
{
}

/// A workspace is switched to and then announced with the number of workspaces, whether or
/// not it exists.
pub proof fn switching_is_announced(state: BlueState, desktop: Desktop, index: usize)
    ensures
        ({
            let actions = shell_actions(state, desktop, ShellMessage::SwitchWorkspace { index });
            &&& actions.len() == 2
            &&& actions[0] matches ShellActionView::SwitchWorkspace { index: to } && to == index
            &&& actions[1] matches ShellActionView::Broadcast { message }
                && message matches CompositorMessageView::WorkspaceSwitched { index: told, count }
                && told == index && count == state.workspace_count
        }),
{
}

/// A number of workspaces from one to ten is taken as it is, zero counts as one, and more
/// than ten as ten. It is announced, and no other message changes it.
pub proof fn workspace_counts_are_taken_as_asked(
    state: BlueState,
    desktop: Desktop,
    msg: ShellMessage,
)
    ensures
        ({
            let n = shell_workspace_count(state.workspace_count, msg);
            match msg {
                ShellMessage::SetWorkspaceCount { count } => {
                    &&& 1 <= count <= 10 ==> n == count
                    &&& count == 0 ==> n == 1
                    &&& count > 10 ==> n == 10
                    &&& shell_actions(state, desktop, msg).last() == (
                    ShellActionView::AnnounceWorkspace { count: n })
                },
                _ => n == state.workspace_count,
            }
        }),
{
}

/// The blanking timeout is the one that was last asked for, in seconds.
pub proof fn the_blanking_timeout_is_taken_as_asked(
    state: BlueState,
    desktop: Desktop,
    timeout: u64,
    msg: ShellMessage,
)
    ensures
        msg matches ShellMessage::SetDpmsTimeout { seconds } ==> shell_dpms_timeout(timeout, msg)
            == seconds,
        !(msg is SetDpmsTimeout) ==> shell_dpms_timeout(timeout, msg) == timeout,
        msg is SetDpmsTimeout || msg is GetWindowList || msg is ReloadConfig ==> shell_actions(
            state,
            desktop,
            msg,
        ).len() == 0,
{
}

/// A window is tiled where its tile is, and a toplevel gets the size of the tile. Where the
/// position means nothing, where there is no output, or where the window is not on screen,
/// nothing happens.
pub proof fn tiling_places_the_window_in_its_tile(
    state: BlueState,
    desktop: Desktop,
    id: u64,
    position: String,
)
    ensures
        ({
            let actions = shell_actions(state, desktop, ShellMessage::TileWindow { id, position });
            let happens = state.outputs@.len() > 0 && tile(
                tiling_area(desktop),
                position@,
            ) is Some && window_with_id(desktop, id) is Some;
            let (location, size) = tile(tiling_area(desktop), position@)->0;
            &&& !happens ==> actions.len() == 0
            &&& happens ==> actions.len() >= 1 && actions[0] == (ShellActionView::MapElement {
                window: id,
                location,
            })
            &&& happens && window_with_id(desktop, id)->0.kind is Toplevel ==> actions.len() == 2
                && actions[1] == (ShellActionView::ConfigureSize { window: id, size })
            &&& happens && !(window_with_id(desktop, id)->0.kind is Toplevel) ==> actions.len() == 1
        }),
{
}

/// Windows are tiled on the first output, and only to the left, to the right or to all of
/// it.
pub proof fn tiles_are_on_the_first_output(desktop: Desktop, area: Rectangle, position: Seq<char>)
    ensures
        desktop.first_output_geometry matches Some(g) ==> tiling_area(desktop) == g,
        desktop.first_output_geometry is None ==> tiling_area(desktop).size == (Size { w: 0, h: 0 })
            && tiling_area(desktop).loc == (Point { x: 0, y: 0 }),
        tile(area, position) is Some <==> position == "left"@ || position == "right"@ || position
            == "full"@,
{
}

/// Any area whose far corner is in the coordinate space, and that is not above it, can be
/// tiled to any position.
pub proof fn ordinary_areas_can_be_tiled(area: Rectangle, position: Seq<char>)
    requires
        area.size.w >= 0,
        area.size.h >= PANEL_HEIGHT,
        fits_i32(area.loc.x + area.size.w),
        fits_i32(area.loc.y + area.size.h),
    ensures
        tile_fits(area, position),
{
}

/// The screen is locked by the first locker that is installed, of blue-lock, swaylock,
/// gtklock and i3lock.
pub proof fn the_screen_is_locked_by_the_first_locker(state: BlueState, desktop: Desktop)
    ensures
        ({
            let quiet = " 2>/dev/null"@;
            let otherwise = quiet + " || "@;
            shell_actions(state, desktop, ShellMessage::LockScreen) == seq![
                ShellActionView::Spawn {
                    command: "blue-lock"@ + otherwise + "swaylock"@ + otherwise + "gtklock"@
                        + otherwise + "i3lock"@ + quiet + " &"@,
                },
            ]
        }),
{
    reveal_strlit(
        "blue-lock 2>/dev/null || swaylock 2>/dev/null || gtklock 2>/dev/null || i3lock 2>/dev/null &",
    );
    reveal_strlit("blue-lock");
    reveal_strlit("swaylock");
    reveal_strlit("gtklock");
    reveal_strlit("i3lock");
    reveal_strlit(" 2>/dev/null");
    reveal_strlit(" || ");
    reveal_strlit(" &");
    let quiet = " 2>/dev/null"@;
    let otherwise = quiet + " || "@;
    assert(lock_command() =~= "blue-lock"@ + otherwise + "swaylock"@ + otherwise + "gtklock"@
        + otherwise + "i3lock"@ + quiet + " &"@);
}

/// A screenshot is cut to the focused window exactly if that is asked for, a window is
/// focused, and its place is known; otherwise it shows every output.
pub proof fn screenshots_are_cut_to_the_focused_window(desktop: Desktop, mode: Seq<char>)
    ensures
        capture_region(desktop, mode) is Some <==> mode == "focused"@ && (focused_window(
            desktop,
        ) matches Some(w) && w.geometry is Some),
        capture_region(desktop, mode) is Some ==> capture_region(desktop, mode) == focused_window(
            desktop,
        )->0.geometry,
{
}

/// A screenshot goes to the file that the shell names, and the shell is told of the same
/// file once it is there; otherwise it is told of the failure.
pub proof fn screenshots_go_to_the_named_file(
    state: BlueState,
    desktop: Desktop,
    path: String,
    mode: String,
)
    ensures
        ({
            let actions = shell_actions(
                state,
                desktop,
                ShellMessage::TakeScreenshot { path, mode },
            );
            &&& actions.len() == 1
            &&& actions[0] matches ShellActionView::Capture { command, path: reported } && reported
                == path@ && command == capture_command(capture_region(desktop, mode@), path@)
            &&& screenshot_outcome(true, path@) == (CompositorMessageView::ScreenshotReady {
                path: path@,
            })
            &&& screenshot_outcome(false, path@) is Error
        }),
{
}

/// A capture of a region tells its place and its size, in this order, and then the file. A
/// capture of everything names the file to both tools that are tried.
pub proof fn captures_name_region_and_file(geo: Rectangle, path: Seq<char>)
    ensures
        ({
            let place = signed_decimal(geo.loc.x as int) + ","@ + signed_decimal(geo.loc.y as int);
            let size = signed_decimal(geo.size.w as int) + "x"@ + signed_decimal(geo.size.h as int);
            let quiet = " 2>/dev/null"@;
            &&& capture_command(Some(geo), path) == "grim"@ + " -g '"@ + place + " "@ + size + "' "@
                + path + quiet
            &&& capture_command(None, path) == "grim "@ + path + quiet + " || "@
                + "import -window root "@ + path + quiet
        }),
{
    reveal_strlit("grim -g '");
    reveal_strlit("grim");
    reveal_strlit(" -g '");
    reveal_strlit(" 2>/dev/null || import -window root ");
    reveal_strlit(" 2>/dev/null");
    reveal_strlit(" || ");
    reveal_strlit("import -window root ");
    let place = signed_decimal(geo.loc.x as int) + ","@ + signed_decimal(geo.loc.y as int);
    let size = signed_decimal(geo.size.w as int) + "x"@ + signed_decimal(geo.size.h as int);
    let quiet = " 2>/dev/null"@;
    assert("grim -g '"@ =~= "grim"@ + " -g '"@);
    assert(capture_command(Some(geo), path) =~= "grim"@ + " -g '"@ + place + " "@ + size + "' "@
        + path + quiet);
    assert(" 2>/dev/null || import -window root "@ =~= quiet + " || "@ + "import -window root "@);
    assert(capture_command(None, path) =~= "grim "@ + path + quiet + " || "@
        + "import -window root "@ + path + quiet);
}

/// The keyboard gets the layout and the variant that are asked for, and repeats a held key
/// thirty times a second after four tenths of one.
pub proof fn keyboards_get_the_asked_layout(
    state: BlueState,
    desktop: Desktop,
    layout: String,
    variant: Option<String>,
)
    ensures
        ({
            let actions = shell_actions(
                state,
                desktop,
                ShellMessage::SetKeyboardLayout { layout, variant },
            );
            &&& actions.len() == 1
            &&& actions[0] matches ShellActionView::AddKeyboard {
                layout: l,
                variant: v,
                repeat_delay,
                repeat_rate,
            } && l == layout@ && (v is Some <==> variant is Some) && (variant is Some ==> v->0
                == variant->0@) && repeat_delay == 400 && repeat_rate == 30
        }),
{
}

/// The cursor theme and the cursor size are set in the environment, each under its own
/// name.
pub proof fn cursors_are_set_in_the_environment(
    state: BlueState,
    desktop: Desktop,
    theme: String,
    size: u32,
)
    ensures
        ({
            let actions = shell_actions(state, desktop, ShellMessage::SetCursor { theme, size });
            &&& actions.len() == 2
            &&& actions[0] == (ShellActionView::SetEnv { key: "XCURSOR_THEME"@, value: theme@ })
            &&& actions[1] == (ShellActionView::SetEnv {
                key: "XCURSOR_SIZE"@,
                value: decimal(size as nat),
            })
        }),
{
}

/// Whatever is asked for, an output is reported as showing no HDR, under its own name.
pub proof fn hdr_is_reported_as_off(
    state: BlueState,
    desktop: Desktop,
    output: String,
    enabled: bool,
)
    ensures
        ({
            let actions = shell_actions(
                state,
                desktop,
                ShellMessage::SetHdrEnabled { output, enabled },
            );
            &&& actions.len() == 1
            &&& actions[0] matches ShellActionView::Broadcast { message }
                && message matches CompositorMessageView::HdrStateChanged { output: told, hdr_active }
                && told == output@ && !hdr_active
        }),
{
}

/// A message changes the record of no window but the one that it names.
pub proof fn messages_change_only_the_window_they_name(
    meta: Map<u64, WindowMeta>,
    desktop: Desktop,
    msg: ShellMessage,
    id: u64,
)
    requires
        meta.contains_key(id),
        !is_about_window(msg, id),
        !(msg matches ShellMessage::MoveWindowToWorkspace { id: asked, .. } && asked == id),
        !(msg matches ShellMessage::MinimizeWindow { id: asked } && asked == id),
    ensures
        shell_meta(meta, desktop, msg)[id] == meta[id],
{
}

/// The view of an action keeps its kind and everything that it holds.
pub proof fn action_views_lose_nothing(action: ShellAction)
    ensures
        match action {
            ShellAction::Raise { window } => action@ == (ShellActionView::Raise { window }),
            ShellAction::Focus { window } => action@ == (ShellActionView::Focus { window }),
            ShellAction::SendClose { window } => action@ == (ShellActionView::SendClose { window }),
            ShellAction::SwitchWorkspace { index } => action@ == (
            ShellActionView::SwitchWorkspace { index }),
            ShellAction::AnnounceWorkspace { count } => action@ == (
            ShellActionView::AnnounceWorkspace { count }),
            ShellAction::Broadcast { message } => action@ == (ShellActionView::Broadcast {
                message: message@,
            }),
            ShellAction::ConfigureMaximized { window, maximized } => action@ == (
            ShellActionView::ConfigureMaximized { window, maximized }),
            ShellAction::ConfigureFullscreen { window, fullscreen } => action@ == (
            ShellActionView::ConfigureFullscreen { window, fullscreen }),
            ShellAction::MapElement { window, location } => action@ == (
            ShellActionView::MapElement { window, location }),
            ShellAction::ConfigureSize { window, size } => action@ == (
            ShellActionView::ConfigureSize { window, size }),
            ShellAction::Spawn { command } => action@ == (ShellActionView::Spawn {
                command: command@,
            }),
            ShellAction::Capture { command, path } => action@ == (ShellActionView::Capture {
                command: command@,
                path: path@,
            }),
            ShellAction::AddKeyboard { layout, variant, repeat_delay, repeat_rate } => {
                action@ matches ShellActionView::AddKeyboard {
                    layout: l,
                    variant: v,
                    repeat_delay: delay,
                    repeat_rate: rate,
                } && l == layout@ && v == text_view(variant) && delay == repeat_delay && rate
                    == repeat_rate
            },
            ShellAction::SetEnv { key, value } => action@ == (ShellActionView::SetEnv {
                key: key@,
                value: value@,
            }),
        },
{
}

/// A list of actions is viewed one by one, in order.
pub proof fn actions_are_viewed_in_order(actions: Seq<ShellAction>, i: int)
    ensures
        action_views(actions).len() == actions.len(),
        0 <= i < actions.len() ==> action_views(actions)[i] == actions[i]@,
{
}

} // verus!
