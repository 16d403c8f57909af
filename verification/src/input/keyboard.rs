//! Keyboard shortcuts.

use crate::environment::{home_directory, is_timestamp, local_timestamp};
use crate::state::{focused_window, with_minimized, BlueState, Desktop, WindowKind, WindowMeta};
use crate::text::{join_path, path_join};
use vstd::prelude::*;

verus! {

/// Keysyms of the keys that take part in a shortcut.
pub const KEY_1: u32 = 0x31;

pub const KEY_2: u32 = 0x32;

pub const KEY_3: u32 = 0x33;

pub const KEY_4: u32 = 0x34;

pub const KEY_LOWER_T: u32 = 0x74;

pub const KEY_TAB: u32 = 0xff09;

pub const KEY_ESCAPE: u32 = 0xff1b;

pub const KEY_LEFT: u32 = 0xff51;

pub const KEY_UP: u32 = 0xff52;

pub const KEY_RIGHT: u32 = 0xff53;

pub const KEY_DOWN: u32 = 0xff54;

pub const KEY_PRINT: u32 = 0xff61;

pub const KEY_F4: u32 = 0xffc1;

pub const KEY_ALT_L: u32 = 0xffe9;

pub const KEY_ALT_R: u32 = 0xffea;

pub const KEY_SUPER_L: u32 = 0xffeb;

pub const KEY_SUPER_R: u32 = 0xffec;

/// A key going down or up, with the modifiers that are held.
#[derive(Debug, Clone, Copy, PartialEq, Eq, Structural)]
pub struct KeyEvent {
    /// The keysym, with the modifiers applied.
    pub sym: u32,
    pub pressed: bool,
    pub ctrl: bool,
    pub alt: bool,
    pub shift: bool,
    pub logo: bool,
}

/// What a key event means to the compositor.
#[derive(Debug, Clone, Copy, PartialEq, Eq, Structural)]
pub enum Shortcut {
    /// Step the open window switcher back.
    SwitcherBack,
    /// Open the window switcher, or step it on.
    Switcher,
    /// Take the selection of the open window switcher.
    CommitSwitcher,
    /// The Super key itself.
    Super,
    FullscreenMenu,
    Workspace { index: usize },
    NextWorkspace,
    PreviousWorkspace,
    Maximize,
    Minimize,
    Close,
    Terminal,
    Screenshot,
    /// Close the open window switcher.
    LeaveSwitcher,
    /// Nothing: the key belongs to the focused client.
    Unbound,
}

/// What is to be carried out for a key.
#[derive(Debug, Clone, Copy, PartialEq, Eq, Structural)]
pub enum KeyAction {
    Nothing,
    CycleSwitcher { forward: bool },
    ApplySwitcherSelection,
    ToggleStartMenu,
    ToggleFullscreenMenu,
    SwitchWorkspace { index: usize },
    /// Set or unset the maximized state and send a configure.
    ConfigureMaximized { window: u64, maximized: bool },
    SendClose { window: u64 },
    LaunchTerminal,
    TakeScreenshot,
}

/// Whether the key is kept from the client, and what is carried out.
#[derive(Debug, Clone, Copy, PartialEq, Eq, Structural)]
pub struct KeyOutcome {
    pub intercept: bool,
    pub action: KeyAction,
}

/// [`KeyOutcome`] with the shell command that it needs, if any.
#[derive(Debug, Clone, PartialEq, Eq)]
pub struct KeyReply {
    pub outcome: KeyOutcome,
    pub command: Option<String>,
}

/// The meaning of a key event. The first rule that applies decides.
pub open spec fn shortcut(event: KeyEvent, switcher_open: bool) -> Shortcut {
    let sym = event.sym;
    let down = event.pressed;
    if event.alt && event.shift && sym == KEY_TAB && down && switcher_open {
        Shortcut::SwitcherBack
    } else if event.alt && sym == KEY_TAB && down {
        Shortcut::Switcher
    } else if (sym == KEY_ALT_L || sym == KEY_ALT_R) && !down && switcher_open {
        Shortcut::CommitSwitcher
    } else if sym == KEY_SUPER_L || sym == KEY_SUPER_R {
        Shortcut::Super
    } else if event.logo && sym == KEY_TAB && down {
        Shortcut::FullscreenMenu
    } else if event.logo && down && KEY_1 <= sym <= KEY_4 {
        Shortcut::Workspace { index: (sym - KEY_1) as usize }
    } else if event.logo && sym == KEY_RIGHT && down {
        Shortcut::NextWorkspace
    } else if event.logo && sym == KEY_LEFT && down {
        Shortcut::PreviousWorkspace
    } else if event.logo && sym == KEY_UP && down {
        Shortcut::Maximize
    } else if event.logo && sym == KEY_DOWN && down {
        Shortcut::Minimize
    } else if event.alt && sym == KEY_F4 && down {
        Shortcut::Close
    } else if event.ctrl && event.alt && sym == KEY_LOWER_T && down {
        Shortcut::Terminal
    } else if sym == KEY_PRINT && down {
        Shortcut::Screenshot
    } else if sym == KEY_ESCAPE && down && switcher_open {
        Shortcut::LeaveSwitcher
    } else {
        Shortcut::Unbound
    }
}

/// Whether the shortcut is one that is pressed together with the Super key.
pub open spec fn uses_super(shortcut: Shortcut) -> bool {
    shortcut is FullscreenMenu || shortcut is Workspace || shortcut is NextWorkspace
        || shortcut is PreviousWorkspace || shortcut is Maximize || shortcut is Minimize
}

/// What is carried out for `event`.
pub open spec fn key_action(state: BlueState, desktop: Desktop, event: KeyEvent) -> KeyAction {
    match shortcut(event, state.show_switcher) {
        Shortcut::SwitcherBack => KeyAction::CycleSwitcher { forward: false },
        Shortcut::Switcher => if state.show_switcher {
            KeyAction::CycleSwitcher { forward: true }
        } else {
            KeyAction::Nothing
        },
        Shortcut::CommitSwitcher => KeyAction::ApplySwitcherSelection,
        Shortcut::Super => if !event.pressed && state.super_pressed && !state.super_used {
            KeyAction::ToggleStartMenu
        } else {
            KeyAction::Nothing
        },
        Shortcut::FullscreenMenu => KeyAction::ToggleFullscreenMenu,
        Shortcut::Workspace { index } => KeyAction::SwitchWorkspace { index },
        Shortcut::NextWorkspace => KeyAction::SwitchWorkspace {
            index: if state.current_workspace + 1 <= state.workspace_count - 1 {
                (state.current_workspace + 1) as usize
            } else {
                (state.workspace_count - 1) as usize
            },
        },
        Shortcut::PreviousWorkspace => KeyAction::SwitchWorkspace {
            index: if state.current_workspace == 0 {
                0
            } else {
                (state.current_workspace - 1) as usize
            },
        },
        Shortcut::Maximize => match focused_window(desktop) {
            Some(window) => match window.kind {
                WindowKind::Toplevel { maximized } => KeyAction::ConfigureMaximized {
                    window: window.id,
                    maximized: !maximized,
                },
                _ => KeyAction::Nothing,
            },
            None => KeyAction::Nothing,
        },
        Shortcut::Minimize => KeyAction::Nothing,
        Shortcut::Close => match focused_window(desktop) {
            Some(window) => match window.kind {
                WindowKind::Toplevel { .. } => KeyAction::SendClose { window: window.id },
                _ => KeyAction::Nothing,
            },
            None => KeyAction::Nothing,
        },
        Shortcut::Terminal => KeyAction::LaunchTerminal,
        Shortcut::Screenshot => KeyAction::TakeScreenshot,
        Shortcut::LeaveSwitcher => KeyAction::Nothing,
        Shortcut::Unbound => KeyAction::Nothing,
    }
}

/// Whether the switcher is open after `event`.
pub open spec fn switcher_after(state: BlueState, event: KeyEvent) -> bool {
    match shortcut(event, state.show_switcher) {
        Shortcut::Switcher => true,
        Shortcut::LeaveSwitcher => false,
        _ => state.show_switcher,
    }
}

/// The selection of the switcher after `event`: opening it selects the first
/// window.
pub open spec fn switcher_index_after(state: BlueState, event: KeyEvent) -> usize {
    if shortcut(event, state.show_switcher) is Switcher && !state.show_switcher {
        0
    } else {
        state.switcher_index
    }
}

/// Whether the Super key counts as held after `event`.
pub open spec fn super_pressed_after(state: BlueState, event: KeyEvent) -> bool {
    if shortcut(event, state.show_switcher) is Super {
        event.pressed
    } else {
        state.super_pressed
    }
}

/// Whether a shortcut has used the Super key, after `event`.
pub open spec fn super_used_after(state: BlueState, event: KeyEvent) -> bool {
    let s = shortcut(event, state.show_switcher);
    if s is Super {
        false
    } else if uses_super(s) {
        true
    } else {
        state.super_used
    }
}

/// What is remembered of the windows after `event`.
pub open spec fn meta_after(state: BlueState, desktop: Desktop, event: KeyEvent) -> Map<
    u64,
    WindowMeta,
> {
    match (shortcut(event, state.show_switcher), focused_window(desktop)) {
        (Shortcut::Minimize, Some(window)) => with_minimized(
            state.window_meta@,
            window.id,
            true,
        ),
        _ => state.window_meta@,
    }
}

/// The command that starts a terminal, whichever is installed.
pub open spec fn terminal_command() -> Seq<char> {
    "kitty & || alacritty & || gnome-terminal & || xterm &"@
}

/// The file that a screenshot taken at `stamp` goes to.
pub open spec fn screenshot_path(home: Option<Seq<char>>, stamp: Seq<char>) -> Seq<char> {
    let base = match home {
        Some(path) => path,
        None => Seq::empty(),
    };
    path_join(path_join(base, "Pictures"@), "screenshot_"@ + stamp + ".png"@)
}

/// The command that lets the user take a screenshot into the file `path`.
pub open spec fn interactive_capture_command(path: Seq<char>) -> Seq<char> {
    "flameshot gui -p '"@ + path + "' 2>/dev/null || scrot '"@ + path + "' 2>/dev/null"@
}

/// Whether `command` is a screenshot command for some moment, and for some home directory
/// that has a name, or none.
pub open spec fn is_screenshot_command(command: Seq<char>) -> bool {
    exists|home: Option<Seq<char>>, stamp: Seq<char>|
        is_timestamp(stamp) && (home matches Some(path) ==> path.len() > 0) && command
            == #[trigger] interactive_capture_command(screenshot_path(home, stamp))
}

/// Whether `command` is the one that `action` needs.
pub open spec fn is_command_for(action: KeyAction, command: Option<String>) -> bool {
    match action {
        KeyAction::LaunchTerminal => command matches Some(c) && c@ == terminal_command(),
        KeyAction::TakeScreenshot => command matches Some(c) && is_screenshot_command(c@),
        _ => command is None,
    }
}

/// Recognises a shortcut.
pub fn recognise(event: KeyEvent, switcher_open: bool) -> (s: Shortcut)
    ensures
        s == shortcut(event, switcher_open),
{
    let sym: u32 = event.sym;
    let down = event.pressed;
    if event.alt && event.shift && sym == KEY_TAB && down && switcher_open {
        Shortcut::SwitcherBack
    } else if event.alt && sym == KEY_TAB && down {
        Shortcut::Switcher
    } else if (sym == KEY_ALT_L || sym == KEY_ALT_R) && !down && switcher_open {
        Shortcut::CommitSwitcher
    } else if sym == KEY_SUPER_L || sym == KEY_SUPER_R {
        Shortcut::Super
    } else if event.logo && sym == KEY_TAB && down {
        Shortcut::FullscreenMenu
    } else if event.logo && down && sym == KEY_1 {
        Shortcut::Workspace { index: 0 }
    } else if event.logo && down && sym == KEY_2 {
        Shortcut::Workspace { index: 1 }
    } else if event.logo && down && sym == KEY_3 {
        Shortcut::Workspace { index: 2 }
    } else if event.logo && down && sym == KEY_4 {
        Shortcut::Workspace { index: 3 }
    } else if event.logo && sym == KEY_RIGHT && down {
        Shortcut::NextWorkspace
    } else if event.logo && sym == KEY_LEFT && down {
        Shortcut::PreviousWorkspace
    } else if event.logo && sym == KEY_UP && down {
        Shortcut::Maximize
    } else if event.logo && sym == KEY_DOWN && down {
        Shortcut::Minimize
    } else if event.alt && sym == KEY_F4 && down {
        Shortcut::Close
    } else if event.ctrl && event.alt && sym == KEY_LOWER_T && down {
        Shortcut::Terminal
    } else if sym == KEY_PRINT && down {
        Shortcut::Screenshot
    } else if sym == KEY_ESCAPE && down && switcher_open {
        Shortcut::LeaveSwitcher
    } else {
        Shortcut::Unbound
    }
}

/// Writes the command of the screenshot key.
pub fn screenshot_key_command(home: &Option<String>, stamp: &str) -> (command: String)
    ensures
        command@ == interactive_capture_command(
            screenshot_path(
                match *home {
                    Some(path) => Some(path@),
                    None => None,
                },
                stamp@,
            ),
        ),
{
    let base = match home {
        Some(path) => path.clone(),
        None => String::new(),
    };
    let leaf = "screenshot_".to_string().concat(stamp).concat(".png");
    let folder = join_path(base.as_str(), "Pictures");
    let path = join_path(folder.as_str(), leaf.as_str());
    "flameshot gui -p '".to_string().concat(path.as_str()).concat("' 2>/dev/null || scrot '").concat(
        path.as_str(),
    ).concat("' 2>/dev/null")
}

fn screenshot_command_now() -> (command: String)
    ensures
        is_screenshot_command(command@),
{
    let home = home_directory();
    let stamp = local_timestamp();
    screenshot_key_command(&home, stamp.as_str())
}

/// Decides what a key event does: updates the state, says whether the client
/// gets to see the key, and what is carried out.
pub fn filter_key(state: &mut BlueState, desktop: &Desktop, event: KeyEvent) -> (outcome: KeyOutcome)
    requires
        shortcut(event, old(state).show_switcher) is NextWorkspace ==> old(
            state,
        ).workspace_count > 0 && old(state).current_workspace < usize::MAX,
    ensures
        outcome.intercept == !(shortcut(event, old(state).show_switcher) is Unbound),
        outcome.action == key_action(*old(state), *desktop, event),
        final(state).show_switcher == switcher_after(*old(state), event),
        final(state).switcher_index == switcher_index_after(*old(state), event),
        final(state).super_pressed == super_pressed_after(*old(state), event),
        final(state).super_used == super_used_after(*old(state), event),
        final(state).window_meta@ == meta_after(*old(state), *desktop, event),
        *final(state) == (BlueState {
            show_switcher: final(state).show_switcher,
            switcher_index: final(state).switcher_index,
            super_pressed: final(state).super_pressed,
            super_used: final(state).super_used,
            window_meta: final(state).window_meta,
            ..*old(state)
        }),
{
    let action = match recognise(event, state.show_switcher) {
        Shortcut::SwitcherBack => KeyAction::CycleSwitcher { forward: false },
        Shortcut::Switcher => {
            if !state.show_switcher {
                state.show_switcher = true;
                state.switcher_index = 0;
                KeyAction::Nothing
            } else {
                KeyAction::CycleSwitcher { forward: true }
            }
        },
        Shortcut::CommitSwitcher => KeyAction::ApplySwitcherSelection,
        Shortcut::Super => {
            let toggle = !event.pressed && state.super_pressed && !state.super_used;
            state.super_pressed = event.pressed;
            state.super_used = false;
            if toggle {
                KeyAction::ToggleStartMenu
            } else {
                KeyAction::Nothing
            }
        },
        Shortcut::FullscreenMenu => {
            state.super_used = true;
            KeyAction::ToggleFullscreenMenu
        },
        Shortcut::Workspace { index } => {
            state.super_used = true;
            KeyAction::SwitchWorkspace { index }
        },
        Shortcut::NextWorkspace => {
            state.super_used = true;
            let next: usize = state.current_workspace + 1;
            let last: usize = state.workspace_count - 1;
            KeyAction::SwitchWorkspace {
                index: if next <= last {
                    next
                } else {
                    last
                },
            }
        },
        Shortcut::PreviousWorkspace => {
            state.super_used = true;
            KeyAction::SwitchWorkspace {
                index: if state.current_workspace == 0 {
                    0
                } else {
                    state.current_workspace - 1
                },
            }
        },
        Shortcut::Maximize => {
            state.super_used = true;
            match desktop.focused_window() {
                Some(window) => match window.kind {
                    WindowKind::Toplevel { maximized } => KeyAction::ConfigureMaximized {
                        window: window.id,
                        maximized: !maximized,
                    },
                    _ => KeyAction::Nothing,
                },
                None => KeyAction::Nothing,
            }
        },
        Shortcut::Minimize => {
            state.super_used = true;
            match desktop.focused_window() {
                Some(window) => {
                    state.set_minimized(window.id, true);
                },
                None => {},
            }
            KeyAction::Nothing
        },
        Shortcut::Close => match desktop.focused_window() {
            Some(window) => match window.kind {
                WindowKind::Toplevel { maximized: _ } => KeyAction::SendClose {
                    window: window.id,
                },
                _ => KeyAction::Nothing,
            },
            None => KeyAction::Nothing,
        },
        Shortcut::Terminal => KeyAction::LaunchTerminal,
        Shortcut::Screenshot => KeyAction::TakeScreenshot,
        Shortcut::LeaveSwitcher => {
            state.show_switcher = false;
            KeyAction::Nothing
        },
        Shortcut::Unbound => {
            return KeyOutcome { intercept: false, action: KeyAction::Nothing };
        },
    };
    KeyOutcome { intercept: true, action }
}

/// Takes in a key event. Where a program is to be started, the reply holds the
/// command; a screenshot goes to a file that is named after the local time.
pub fn handle_keyboard(state: &mut BlueState, desktop: &Desktop, event: KeyEvent) -> (reply: KeyReply)
    requires
        shortcut(event, old(state).show_switcher) is NextWorkspace ==> old(
            state,
        ).workspace_count > 0 && old(state).current_workspace < usize::MAX,
    ensures
        reply.outcome.intercept == !(shortcut(event, old(state).show_switcher) is Unbound),
        reply.outcome.action == key_action(*old(state), *desktop, event),
        is_command_for(reply.outcome.action, reply.command),
        final(state).show_switcher == switcher_after(*old(state), event),
        final(state).switcher_index == switcher_index_after(*old(state), event),
        final(state).super_pressed == super_pressed_after(*old(state), event),
        final(state).super_used == super_used_after(*old(state), event),
        final(state).window_meta@ == meta_after(*old(state), *desktop, event),
        *final(state) == (BlueState {
            show_switcher: final(state).show_switcher,
            switcher_index: final(state).switcher_index,
            super_pressed: final(state).super_pressed,
            super_used: final(state).super_used,
            window_meta: final(state).window_meta,
            ..*old(state)
        }),
{
    let outcome = filter_key(state, desktop, event);
    let command = match outcome.action {
        KeyAction::LaunchTerminal => Some(
            "kitty & || alacritty & || gnome-terminal & || xterm &".to_string(),
        ),
        KeyAction::TakeScreenshot => Some(screenshot_command_now()),
        _ => None,
    };
    KeyReply { outcome, command }
}

/// Shift only turns the switcher round: with it the key of the switcher steps an open
/// switcher back, and every other key means what it means without.
pub proof fn shift_only_turns_the_switcher_round(event: KeyEvent, switcher_open: bool)
    ensures
        ({
            let plain = shortcut(KeyEvent { shift: false, ..event }, switcher_open);
            let shifted = shortcut(KeyEvent { shift: true, ..event }, switcher_open);
            shifted == if plain is Switcher && switcher_open {
                Shortcut::SwitcherBack
            } else {
                plain
            }
        }),
{
}

/// Alt+Tab opens the switcher at the first window, with Shift or without. While the
/// switcher is open it stays so and is stepped, backwards with Shift.
pub proof fn alt_tab_opens_the_switcher_and_then_steps_it(
    state: BlueState,
    desktop: Desktop,
    event: KeyEvent,
)
    requires
        event.alt && event.sym == KEY_TAB && event.pressed,
    ensures
        switcher_after(state, event),
        switcher_index_after(state, event) == if state.show_switcher {
            state.switcher_index
        } else {
            0
        },
        key_action(state, desktop, event) == if state.show_switcher {
            KeyAction::CycleSwitcher { forward: !event.shift }
        } else {
            KeyAction::Nothing
        },
{
}

/// A release reaches the client unless it is that of the Super key, or that of an
/// Alt key while the switcher is open.
pub proof fn releases_are_passed_on(event: KeyEvent, switcher_open: bool)
    requires
        !event.pressed,
        event.sym != KEY_SUPER_L && event.sym != KEY_SUPER_R,
        switcher_open ==> event.sym != KEY_ALT_L && event.sym != KEY_ALT_R,
    ensures
        shortcut(event, switcher_open) is Unbound,
{
}

/// The Super key opens the start menu when it is released, if nothing else used
/// it since it went down.
pub proof fn super_tap_toggles_the_start_menu(
    before: BlueState,
    held: BlueState,
    desktop: Desktop,
    press: KeyEvent,
    release: KeyEvent,
)
    requires
        press.sym == KEY_SUPER_L || press.sym == KEY_SUPER_R,
        press.pressed,
        release.sym == KEY_SUPER_L || release.sym == KEY_SUPER_R,
        !release.pressed,
        held.super_pressed == super_pressed_after(before, press),
        held.super_used == super_used_after(before, press),
    ensures
        key_action(held, desktop, release) == KeyAction::ToggleStartMenu,
{
}

/// A shortcut with the Super key keeps the release of that key from opening the
/// start menu.
pub proof fn super_shortcut_is_not_a_tap(
    before: BlueState,
    after: BlueState,
    desktop: Desktop,
    event: KeyEvent,
    release: KeyEvent,
)
    requires
        uses_super(shortcut(event, before.show_switcher)),
        after.super_used == super_used_after(before, event),
        release.sym == KEY_SUPER_L || release.sym == KEY_SUPER_R,
        !release.pressed,
    ensures
        key_action(after, desktop, release) == KeyAction::Nothing,
{
}

/// The arrow shortcuts only ever switch to a workspace that exists, and move by
/// at most one.
pub proof fn arrows_stay_on_existing_workspaces(
    state: BlueState,
    desktop: Desktop,
    event: KeyEvent,
)
    requires
        state.current_workspace < state.workspace_count,
        shortcut(event, state.show_switcher) is NextWorkspace || shortcut(
            event,
            state.show_switcher,
        ) is PreviousWorkspace,
    ensures
        key_action(state, desktop, event) matches KeyAction::SwitchWorkspace { index }
            && index < state.workspace_count && -1 <= index - state.current_workspace <= 1,
{
}

/// A key that is not a shortcut changes nothing.
pub proof fn unbound_keys_change_nothing(state: BlueState, desktop: Desktop, event: KeyEvent)
    requires
        shortcut(event, state.show_switcher) is Unbound,
    ensures
        key_action(state, desktop, event) == KeyAction::Nothing,
        switcher_after(state, event) == state.show_switcher,
        switcher_index_after(state, event) == state.switcher_index,
        super_pressed_after(state, event) == state.super_pressed,
        super_used_after(state, event) == state.super_used,
        meta_after(state, desktop, event) == state.window_meta@,
{
}

/// A screenshot lies directly in the pictures folder: what is written after that
/// folder holds no further separator.
pub proof fn screenshots_go_to_the_pictures_folder(home: Option<Seq<char>>, stamp: Seq<char>)
    requires
        is_timestamp(stamp),
    ensures
        ({
            let folder = path_join(
                match home {
                    Some(path) => path,
                    None => Seq::empty(),
                },
                "Pictures"@,
            );
            let leaf = "screenshot_"@ + stamp + ".png"@;
            &&& screenshot_path(home, stamp) == folder + seq!['/'] + leaf
            &&& !leaf.contains('/')
        }),
{
    reveal_strlit("Pictures");
    reveal_strlit("screenshot_");
    reveal_strlit(".png");
    let base = match home {
        Some(path) => path,
        None => Seq::empty(),
    };
    let folder = path_join(base, "Pictures"@);
    assert(folder.last() == 's');
    let leaf = "screenshot_"@ + stamp + ".png"@;
    assert forall|i: int| 0 <= i < leaf.len() implies leaf[i] != '/' by {
        if 11 <= i < 11 + stamp.len() {
            assert(leaf[i] == stamp[i - 11]);
        }
    }
}

/// Super+Left goes to the workspace before the current one, and stays on the first.
/// Super+Right goes to the workspace after the current one, and stays on the last.
pub proof fn arrows_step_to_the_neighbouring_workspace(
    state: BlueState,
    desktop: Desktop,
    event: KeyEvent,
)
    requires
        state.current_workspace < state.workspace_count,
        event.logo && event.pressed,
        event.sym == KEY_LEFT || event.sym == KEY_RIGHT,
    ensures
        key_action(state, desktop, event) matches KeyAction::SwitchWorkspace { index } && {
            &&& event.sym == KEY_LEFT && state.current_workspace > 0 ==> index + 1
                == state.current_workspace
            &&& event.sym == KEY_LEFT && state.current_workspace == 0 ==> index == 0
            &&& event.sym == KEY_RIGHT && state.current_workspace + 1 < state.workspace_count
                ==> index == state.current_workspace + 1
            &&& event.sym == KEY_RIGHT && state.current_workspace + 1 == state.workspace_count
                ==> index == state.current_workspace
        },
        !(shortcut(event, state.show_switcher) is Unbound),
{
}

/// Going one workspace on and one back again ends where it began, away from the last
/// workspace; so does going back and on, away from the first.
pub proof fn opposite_arrows_undo_each_other(
    before: BlueState,
    between: BlueState,
    desktop: Desktop,
    there: KeyEvent,
    back: KeyEvent,
)
    requires
        before.current_workspace < before.workspace_count,
        between.workspace_count == before.workspace_count,
        there.logo && there.pressed && back.logo && back.pressed,
        (there.sym == KEY_RIGHT && back.sym == KEY_LEFT && before.current_workspace + 1
            < before.workspace_count) || (there.sym == KEY_LEFT && back.sym == KEY_RIGHT
            && before.current_workspace > 0),
        key_action(before, desktop, there) == (KeyAction::SwitchWorkspace {
            index: between.current_workspace,
        }),
    ensures
        between.current_workspace != before.current_workspace,
        key_action(between, desktop, back) == (KeyAction::SwitchWorkspace {
            index: before.current_workspace,
        }),
{
}

/// Super and the digit `n` switch to the workspace that is the `n`-th.
pub proof fn super_digits_pick_a_workspace(
    state: BlueState,
    desktop: Desktop,
    event: KeyEvent,
    n: int,
)
    requires
        event.logo && event.pressed,
        1 <= n <= 4,
        event.sym == 0x30 + n,
    ensures
        key_action(state, desktop, event) matches KeyAction::SwitchWorkspace { index } && index + 1
            == n,
        !(shortcut(event, state.show_switcher) is Unbound),
{
}

/// Super+Tab toggles the fullscreen menu, unless Alt makes it a key of the switcher.
pub proof fn super_tab_toggles_the_fullscreen_menu(
    state: BlueState,
    desktop: Desktop,
    event: KeyEvent,
)
    requires
        event.logo && event.pressed && event.sym == KEY_TAB,
    ensures
        key_action(state, desktop, event) == KeyAction::ToggleFullscreenMenu <==> !event.alt,
        !(shortcut(event, state.show_switcher) is Unbound),
{
}

/// Super+Up asks the focused window for the maximized state that it does not have, if it
/// is a toplevel, and asks nothing else of anyone.
pub proof fn super_up_turns_the_maximized_state_over(
    state: BlueState,
    desktop: Desktop,
    event: KeyEvent,
    window: u64,
    maximized: bool,
)
    requires
        event.logo && event.pressed && event.sym == KEY_UP,
    ensures
        key_action(state, desktop, event) == (KeyAction::ConfigureMaximized { window, maximized })
            <==> (focused_window(desktop) matches Some(w) && w.id == window && w.kind == (
        WindowKind::Toplevel { maximized: !maximized })),
        key_action(state, desktop, event) is ConfigureMaximized || key_action(
            state,
            desktop,
            event,
        ) == KeyAction::Nothing,
        !(shortcut(event, state.show_switcher) is Unbound),
{
}

/// Super+Down minimizes the focused window, if it is known, and nothing else is changed of
/// any window. No other key changes what is remembered of the windows.
pub proof fn super_down_minimizes_the_focused_window(
    state: BlueState,
    desktop: Desktop,
    event: KeyEvent,
    id: u64,
)
    ensures
        ({
            let before = state.window_meta@;
            let after = meta_after(state, desktop, event);
            let minimizes = event.logo && event.pressed && event.sym == KEY_DOWN;
            &&& after.contains_key(id) <==> before.contains_key(id)
            &&& before.contains_key(id) ==> {
                &&& after[id].is_minimized == (before[id].is_minimized || (minimizes && (
                focused_window(desktop) matches Some(w) && w.id == id)))
                &&& after[id].title == before[id].title
                &&& after[id].app_id == before[id].app_id
                &&& after[id].workspace == before[id].workspace
                &&& after[id].is_fullscreen == before[id].is_fullscreen
            }
            &&& minimizes ==> key_action(state, desktop, event) == KeyAction::Nothing && !(
            shortcut(event, state.show_switcher) is Unbound)
        }),
{
}

/// Alt+F4 asks the focused window to close, if it is a toplevel, and nobody else.
pub proof fn alt_f4_closes_the_focused_window(
    state: BlueState,
    desktop: Desktop,
    event: KeyEvent,
    window: u64,
)
    requires
        event.alt && event.pressed && event.sym == KEY_F4,
    ensures
        key_action(state, desktop, event) == (KeyAction::SendClose { window }) <==> (focused_window(
            desktop,
        ) matches Some(w) && w.id == window && w.kind is Toplevel),
        key_action(state, desktop, event) is SendClose || key_action(state, desktop, event)
            == KeyAction::Nothing,
        !(shortcut(event, state.show_switcher) is Unbound),
{
}

/// Ctrl+Alt+T starts a terminal, and the Print key takes a screenshot, with whatever
/// else is held.
pub proof fn programs_are_started_by_their_keys(
    state: BlueState,
    desktop: Desktop,
    event: KeyEvent,
)
    requires
        event.pressed,
    ensures
        event.ctrl && event.alt && event.sym == KEY_LOWER_T <==> key_action(state, desktop, event)
            == KeyAction::LaunchTerminal,
        event.sym == KEY_PRINT <==> key_action(state, desktop, event) == KeyAction::TakeScreenshot,
        event.sym == KEY_PRINT || (event.ctrl && event.alt && event.sym == KEY_LOWER_T) ==> !(
        shortcut(event, state.show_switcher) is Unbound),
{
}

/// Escape leaves an open switcher without taking its selection. A closed one leaves the key
/// to the client.
pub proof fn escape_leaves_the_switcher(state: BlueState, desktop: Desktop, event: KeyEvent)
    requires
        event.pressed && event.sym == KEY_ESCAPE,
    ensures
        !switcher_after(state, event),
        switcher_index_after(state, event) == state.switcher_index,
        key_action(state, desktop, event) == KeyAction::Nothing,
        shortcut(event, state.show_switcher) is Unbound <==> !state.show_switcher,
{
}

/// Releasing Alt takes the selection of an open switcher. Otherwise the Alt keys belong to
/// the client, going down and coming up.
pub proof fn releasing_alt_takes_the_selection(
    state: BlueState,
    desktop: Desktop,
    event: KeyEvent,
)
    requires
        event.sym == KEY_ALT_L || event.sym == KEY_ALT_R,
    ensures
        ({
            let takes = !event.pressed && state.show_switcher;
            &&& key_action(state, desktop, event) == KeyAction::ApplySwitcherSelection <==> takes
            &&& shortcut(event, state.show_switcher) is Unbound <==> !takes
            &&& switcher_after(state, event) == state.show_switcher
            &&& switcher_index_after(state, event) == state.switcher_index
        }),
{
}

/// The switcher opens only with Alt+Tab, closes only with Escape, and its selection is set
/// only when it opens.
pub proof fn the_switcher_changes_only_with_its_keys(state: BlueState, event: KeyEvent)
    ensures
        switcher_after(state, event) && !state.show_switcher ==> event.pressed && event.alt
            && event.sym == KEY_TAB,
        !switcher_after(state, event) && state.show_switcher ==> event.pressed && event.sym
            == KEY_ESCAPE,
        switcher_index_after(state, event) != state.switcher_index ==> !state.show_switcher
            && switcher_after(state, event) && switcher_index_after(state, event) == 0,
{
}

/// The Super key counts as held from its press to its release, and as unused at both. It
/// never reaches the client. Its release toggles the start menu exactly if it was held and
/// unused; its press does nothing else.
pub proof fn the_super_key_is_tracked(state: BlueState, desktop: Desktop, event: KeyEvent)
    requires
        event.sym == KEY_SUPER_L || event.sym == KEY_SUPER_R,
    ensures
        super_pressed_after(state, event) == event.pressed,
        !super_used_after(state, event),
        key_action(state, desktop, event) == KeyAction::ToggleStartMenu <==> !event.pressed
            && state.super_pressed && !state.super_used,
        key_action(state, desktop, event) == KeyAction::ToggleStartMenu || key_action(
            state,
            desktop,
            event,
        ) == KeyAction::Nothing,
        !(shortcut(event, state.show_switcher) is Unbound),
{
}

/// No other key changes whether the Super key counts as held. It counts as used once Tab
/// without Alt, a digit up to four, or an arrow was pressed with it, and by nothing else.
pub proof fn super_is_used_by_its_shortcuts(state: BlueState, event: KeyEvent)
    requires
        event.sym != KEY_SUPER_L && event.sym != KEY_SUPER_R,
    ensures
        super_pressed_after(state, event) == state.super_pressed,
        super_used_after(state, event) == (state.super_used || (event.logo && event.pressed && (
        event.sym == KEY_TAB && !event.alt || event.sym == KEY_1 || event.sym == KEY_2 || event.sym
            == KEY_3 || event.sym == KEY_4 || event.sym == KEY_LEFT || event.sym == KEY_RIGHT
            || event.sym == KEY_UP || event.sym == KEY_DOWN))),
{
}

/// A key that is pressed without Alt and Super reaches the client, except Print, the Super
/// key itself, and Escape while the switcher is open. Typing is never swallowed.
pub proof fn plain_keys_reach_the_client(event: KeyEvent, switcher_open: bool)
    requires
        !event.alt && !event.logo && event.pressed,
        event.sym != KEY_PRINT && event.sym != KEY_SUPER_L && event.sym != KEY_SUPER_R,
        switcher_open ==> event.sym != KEY_ESCAPE,
    ensures
        shortcut(event, switcher_open) is Unbound,
{
}

/// Alt takes no key from the client but Tab, F4 and, with Ctrl, T. Super takes none but Tab,
/// the digits up to four, and the arrows.
pub proof fn modifiers_take_only_their_shortcuts(event: KeyEvent, switcher_open: bool)
    requires
        event.pressed,
        event.sym != KEY_PRINT && event.sym != KEY_SUPER_L && event.sym != KEY_SUPER_R,
        switcher_open ==> event.sym != KEY_ESCAPE,
        event.alt ==> event.sym != KEY_TAB && event.sym != KEY_F4 && !(event.ctrl && event.sym
            == KEY_LOWER_T),
        event.logo ==> event.sym != KEY_TAB && event.sym != KEY_1 && event.sym != KEY_2
            && event.sym != KEY_3 && event.sym != KEY_4 && event.sym != KEY_LEFT && event.sym
            != KEY_RIGHT && event.sym != KEY_UP && event.sym != KEY_DOWN,
    ensures
        shortcut(event, switcher_open) is Unbound,
{
}

/// The command of the screenshot key names the same file to both tools, in quotes.
pub proof fn both_tools_write_the_same_file(path: Seq<char>)
    ensures
        ({
            let command = interactive_capture_command(path);
            let first = "flameshot gui -p '"@;
            let second = "' 2>/dev/null || scrot '"@;
            let n = first.len() as int;
            let m = n + path.len() + second.len();
            &&& command.take(n) == first
            &&& command.subrange(n, n + path.len()) == path
            &&& command.subrange(n + path.len(), m) == second
            &&& command.subrange(m, m + path.len()) == path
            &&& command.skip(m + path.len()) == "' 2>/dev/null"@
        }),
{
    let command = interactive_capture_command(path);
    let first = "flameshot gui -p '"@;
    let second = "' 2>/dev/null || scrot '"@;
    let n = first.len() as int;
    let m = n + path.len() + second.len();
    assert(command.take(n) =~= first);
    assert(command.subrange(n, n + path.len()) =~= path);
    assert(command.subrange(n + path.len(), m) =~= second);
    assert(command.subrange(m, m + path.len()) =~= path);
    assert(command.skip(m + path.len()) =~= "' 2>/dev/null"@);
}

/// Exactly the keys that start a program need a command: a terminal is tried in the order
/// kitty, alacritty, gnome-terminal, xterm.
pub proof fn only_programs_need_a_command(action: KeyAction, command: Option<String>)
    requires
        is_command_for(action, command),
    ensures
        command is Some <==> action == KeyAction::LaunchTerminal || action
            == KeyAction::TakeScreenshot,
        action == KeyAction::LaunchTerminal ==> command->0@ == "kitty"@ + " & || "@ + "alacritty"@
            + " & || "@ + "gnome-terminal"@ + " & || "@ + "xterm"@ + " &"@,
        action == KeyAction::TakeScreenshot ==> exists|home: Option<Seq<char>>, stamp: Seq<char>|
            is_timestamp(stamp) && command->0@ == #[trigger] interactive_capture_command(
                screenshot_path(home, stamp),
            ),
{
    reveal_strlit("kitty & || alacritty & || gnome-terminal & || xterm &");
    reveal_strlit("kitty");
    reveal_strlit("alacritty");
    reveal_strlit("gnome-terminal");
    reveal_strlit("xterm");
    reveal_strlit(" & || ");
    reveal_strlit(" &");
    assert(terminal_command() =~= "kitty"@ + " & || "@ + "alacritty"@ + " & || "@
        + "gnome-terminal"@ + " & || "@ + "xterm"@ + " &"@);
}

} // verus!
