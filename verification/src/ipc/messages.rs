//! The messages that the compositor and the shell exchange.

use vstd::prelude::*;

verus! {

/// What the shell is told of one window.
#[derive(Debug, Clone, PartialEq, Eq)]
pub struct WindowInfo {
    pub id: u64,
    pub title: String,
    pub app_id: String,
    pub workspace: usize,
    pub is_minimized: bool,
    pub is_fullscreen: bool,
}

/// Messages from the compositor to the shell.
#[derive(Debug, Clone, PartialEq, Eq)]
pub enum CompositorMessage {
    Ready { socket: String },
    WindowList { windows: Vec<WindowInfo> },
    WindowFocused { id: u64 },
    WindowOpened { window: WindowInfo },
    WindowClosed { id: u64 },
    WindowUpdated { window: WindowInfo },
    ToggleStartMenu,
    ToggleFullscreenMenu,
    WorkspaceSwitched { index: usize, count: usize },
    SwitcherState { visible: bool, index: usize },
    ScreenLocked { locked: bool },
    OutputChanged { name: String, connected: bool, width: u32, height: u32 },
    IdleChanged { idle: bool },
    ScreenshotReady { path: String },
    Error { message: String },
    /// Where the candidate window of an input method is. The shell never draws
    /// its content; it only keeps its own chrome clear of that region.
    ImeCandidateWindow { visible: bool, x: i32, y: i32, width: u32, height: u32 },
    /// The HDR state of an output changed.
    HdrStateChanged { output: String, hdr_active: bool },
}

/// Messages from the shell to the compositor.
#[derive(Debug, Clone, PartialEq, Eq)]
pub enum ShellMessage {
    FocusWindow { id: u64 },
    CloseWindow { id: u64 },
    KillWindow { id: u64 },
    SwitchWorkspace { index: usize },
    MoveWindowToWorkspace { id: u64, workspace: usize },
    ToggleMaximize { id: u64 },
    MinimizeWindow { id: u64 },
    RestoreWindow { id: u64 },
    SetFullscreen { id: u64, fullscreen: bool },
    TileWindow { id: u64, position: String },
    GetWindowList,
    SetWorkspaceCount { count: usize },
    SetDpmsTimeout { seconds: u64 },
    LockScreen,
    TakeScreenshot { path: String, mode: String },
    SetKeyboardLayout { layout: String, variant: Option<String> },
    SetCursor { theme: String, size: u32 },
    ReloadConfig,
    /// The user toggled HDR for an output in the monitor settings.
    SetHdrEnabled { output: String, enabled: bool },
}

/// [`WindowInfo`] with its text as sequences of characters.
pub struct WindowInfoView {
    pub id: u64,
    pub title: Seq<char>,
    pub app_id: Seq<char>,
    pub workspace: usize,
    pub is_minimized: bool,
    pub is_fullscreen: bool,
}

/// [`CompositorMessage`] with its text as sequences of characters.
pub enum CompositorMessageView {
    Ready { socket: Seq<char> },
    WindowList { windows: Seq<WindowInfoView> },
    WindowFocused { id: u64 },
    WindowOpened { window: WindowInfoView },
    WindowClosed { id: u64 },
    WindowUpdated { window: WindowInfoView },
    ToggleStartMenu,
    ToggleFullscreenMenu,
    WorkspaceSwitched { index: usize, count: usize },
    SwitcherState { visible: bool, index: usize },
    ScreenLocked { locked: bool },
    OutputChanged { name: Seq<char>, connected: bool, width: u32, height: u32 },
    IdleChanged { idle: bool },
    ScreenshotReady { path: Seq<char> },
    Error { message: Seq<char> },
    ImeCandidateWindow { visible: bool, x: int, y: int, width: int, height: int },
    HdrStateChanged { output: Seq<char>, hdr_active: bool },
}

impl View for WindowInfo {
    type V = WindowInfoView;

    open spec fn view(&self) -> WindowInfoView {
        WindowInfoView {
            id: self.id,
            title: self.title@,
            app_id: self.app_id@,
            workspace: self.workspace,
            is_minimized: self.is_minimized,
            is_fullscreen: self.is_fullscreen,
        }
    }
}

/// The views of a list of windows.
pub open spec fn window_infos(windows: Seq<WindowInfo>) -> Seq<WindowInfoView> {
    windows.map_values(|w: WindowInfo| w@)
}

impl View for CompositorMessage {
    type V = CompositorMessageView;

    open spec fn view(&self) -> CompositorMessageView {
        match *self {
            CompositorMessage::Ready { socket } => CompositorMessageView::Ready { socket: socket@ },
            CompositorMessage::WindowList { windows } => CompositorMessageView::WindowList {
                windows: window_infos(windows@),
            },
            CompositorMessage::WindowFocused { id } => CompositorMessageView::WindowFocused { id },
            CompositorMessage::WindowOpened { window } => CompositorMessageView::WindowOpened {
                window: window@,
            },
            CompositorMessage::WindowClosed { id } => CompositorMessageView::WindowClosed { id },
            CompositorMessage::WindowUpdated { window } => CompositorMessageView::WindowUpdated {
                window: window@,
            },
            CompositorMessage::ToggleStartMenu => CompositorMessageView::ToggleStartMenu,
            CompositorMessage::ToggleFullscreenMenu => CompositorMessageView::ToggleFullscreenMenu,
            CompositorMessage::WorkspaceSwitched {
                index,
                count,
            } => CompositorMessageView::WorkspaceSwitched { index, count },
            CompositorMessage::SwitcherState {
                visible,
                index,
            } => CompositorMessageView::SwitcherState { visible, index },
            CompositorMessage::ScreenLocked { locked } => CompositorMessageView::ScreenLocked {
                locked,
            },
            CompositorMessage::OutputChanged {
                name,
                connected,
                width,
                height,
            } => CompositorMessageView::OutputChanged { name: name@, connected, width, height },
            CompositorMessage::IdleChanged { idle } => CompositorMessageView::IdleChanged { idle },
            CompositorMessage::ScreenshotReady { path } => CompositorMessageView::ScreenshotReady {
                path: path@,
            },
            CompositorMessage::Error { message } => CompositorMessageView::Error {
                message: message@,
            },
            CompositorMessage::ImeCandidateWindow {
                visible,
                x,
                y,
                width,
                height,
            } => CompositorMessageView::ImeCandidateWindow {
                visible,
                x: x as int,
                y: y as int,
                width: width as int,
                height: height as int,
            },
            CompositorMessage::HdrStateChanged {
                output,
                hdr_active,
            } => CompositorMessageView::HdrStateChanged { output: output@, hdr_active },
        }
    }
}

/// The views of a list of messages.
pub open spec fn message_views(messages: Seq<CompositorMessage>) -> Seq<CompositorMessageView> {
    messages.map_values(|m: CompositorMessage| m@)
}

/// The view of a message keeps its kind and everything that it holds.
pub proof fn message_views_lose_nothing(message: CompositorMessage)
    ensures
        match message {
            CompositorMessage::Ready { socket } => message@ == (CompositorMessageView::Ready {
                socket: socket@,
            }),
            CompositorMessage::WindowList { windows } => message@ == (
            CompositorMessageView::WindowList { windows: window_infos(windows@) }),
            CompositorMessage::WindowFocused { id } => message@ == (
            CompositorMessageView::WindowFocused { id }),
            CompositorMessage::WindowOpened { window } => message@ == (
            CompositorMessageView::WindowOpened { window: window@ }),
            CompositorMessage::WindowClosed { id } => message@ == (
            CompositorMessageView::WindowClosed { id }),
            CompositorMessage::WindowUpdated { window } => message@ == (
            CompositorMessageView::WindowUpdated { window: window@ }),
            CompositorMessage::ToggleStartMenu => message@ is ToggleStartMenu,
            CompositorMessage::ToggleFullscreenMenu => message@ is ToggleFullscreenMenu,
            CompositorMessage::WorkspaceSwitched { index, count } => message@ == (
            CompositorMessageView::WorkspaceSwitched { index, count }),
            CompositorMessage::SwitcherState { visible, index } => message@ == (
            CompositorMessageView::SwitcherState { visible, index }),
            CompositorMessage::ScreenLocked { locked } => message@ == (
            CompositorMessageView::ScreenLocked { locked }),
            CompositorMessage::OutputChanged { name, connected, width, height } => message@ == (
            CompositorMessageView::OutputChanged { name: name@, connected, width, height }),
            CompositorMessage::IdleChanged { idle } => message@ == (
            CompositorMessageView::IdleChanged { idle }),
            CompositorMessage::ScreenshotReady { path } => message@ == (
            CompositorMessageView::ScreenshotReady { path: path@ }),
            CompositorMessage::Error { message: text } => message@ == (
            CompositorMessageView::Error { message: text@ }),
            CompositorMessage::ImeCandidateWindow { visible, x, y, width, height } => {
                message@ matches CompositorMessageView::ImeCandidateWindow {
                    visible: v,
                    x: at_x,
                    y: at_y,
                    width: w,
                    height: h,
                } && v == visible && at_x == x && at_y == y && w == width && h == height
            },
            CompositorMessage::HdrStateChanged { output, hdr_active } => message@ == (
            CompositorMessageView::HdrStateChanged { output: output@, hdr_active }),
        },
{
}

/// The view of a window's record keeps everything that it holds; lists are viewed one by
/// one, in order.
pub proof fn window_views_lose_nothing(
    window: WindowInfo,
    windows: Seq<WindowInfo>,
    messages: Seq<CompositorMessage>,
    i: int,
)
    ensures
        window@.id == window.id,
        window@.title == window.title@,
        window@.app_id == window.app_id@,
        window@.workspace == window.workspace,
        window@.is_minimized == window.is_minimized,
        window@.is_fullscreen == window.is_fullscreen,
        window_infos(windows).len() == windows.len(),
        0 <= i < windows.len() ==> window_infos(windows)[i] == windows[i]@,
        message_views(messages).len() == messages.len(),
        0 <= i < messages.len() ==> message_views(messages)[i] == messages[i]@,
{
}

} // verus!
