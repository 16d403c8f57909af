//! The state of the compositor, and what it reads of the windows on screen.

use crate::geometry::Rectangle;
use crate::output::Output;
use crate::protocols::foreign_toplevel::ForeignToplevelManagerState;
use crate::protocols::idle_inhibit::InhibitingSurface;
use crate::protocols::input_method::TrackedImePopup;
use crate::protocols::output_management::OutputManagementState;
use crate::protocols::screencopy::ScreencopyState;
use crate::render::udev::BackendData;
use crate::search::first_match;
use std::collections::HashMap;
use vstd::prelude::*;

verus! {

broadcast use vstd::std_specs::hash::group_hash_axioms;

/// What the compositor remembers of a window.
#[derive(Debug)]
pub struct WindowMeta {
    pub title: String,
    pub app_id: String,
    pub workspace: usize,
    pub is_minimized: bool,
    pub is_fullscreen: bool,
}

/// The state of the compositor.
#[derive(Debug)]
pub struct BlueState {
    pub show_switcher: bool,
    pub switcher_index: usize,
    pub super_pressed: bool,
    /// Some shortcut has used the Super key since it went down.
    pub super_used: bool,
    pub current_workspace: usize,
    pub workspace_count: usize,
    pub should_exit: bool,
    /// Seconds without input before the outputs are blanked.
    pub dpms_timeout: u64,
    pub window_meta: HashMap<u64, WindowMeta>,
    pub outputs: Vec<Output>,
    pub idle_inhibiting_surfaces: Vec<InhibitingSurface>,
    pub input_method_popups: Vec<TrackedImePopup>,
    /// The GPU that a surface's buffer was allocated on, by surface.
    pub surface_gpu_origin: HashMap<u64, u64>,
    pub foreign_toplevel_state: ForeignToplevelManagerState,
    pub output_management_state: OutputManagementState,
    pub screencopy_state: ScreencopyState,
    pub backend_data: BackendData,
    /// The client-facing dmabuf global exists.
    pub dmabuf_registered: bool,
}

/// What drives a window on screen.
#[derive(Debug, Clone, Copy, PartialEq, Eq, Structural)]
pub enum WindowKind {
    /// A Wayland toplevel; `maximized` is its pending state.
    Toplevel { maximized: bool },
    /// An X11 window.
    X11,
    /// Neither of the two.
    Other,
}

/// One window on screen.
#[derive(Debug, Clone, Copy, PartialEq, Eq, Structural)]
pub struct DesktopWindow {
    pub id: u64,
    pub surface: Option<u64>,
    pub kind: WindowKind,
    pub geometry: Option<Rectangle>,
}

/// The windows on screen and where the keyboard focus is, as read just before a
/// decision is made.
#[derive(Debug)]
pub struct Desktop {
    pub windows: Vec<DesktopWindow>,
    pub has_keyboard: bool,
    /// The surface that has the keyboard focus.
    pub keyboard_focus: Option<u64>,
    /// The place of the first output in the global space.
    pub first_output_geometry: Option<Rectangle>,
}

/// The window that has the identifier `id`.
pub open spec fn window_with_id(desktop: Desktop, id: u64) -> Option<DesktopWindow> {
    first_match(desktop.windows@, |w: DesktopWindow| w.id == id)
}

/// The window that is drawn by `surface`.
pub open spec fn window_with_surface(desktop: Desktop, surface: u64) -> Option<DesktopWindow> {
    first_match(desktop.windows@, |w: DesktopWindow| w.surface == Some(surface))
}

/// The window that has the keyboard focus.
pub open spec fn focused_window(desktop: Desktop) -> Option<DesktopWindow> {
    match desktop.keyboard_focus {
        Some(surface) => window_with_surface(desktop, surface),
        None => None,
    }
}

/// `meta` with the minimized flag of the window `id` set to `minimized`.
pub open spec fn with_minimized(
    meta: Map<u64, WindowMeta>,
    id: u64,
    minimized: bool,
) -> Map<u64, WindowMeta> {
    if meta.contains_key(id) {
        meta.insert(id, WindowMeta { is_minimized: minimized, ..meta[id] })
    } else {
        meta
    }
}

/// `meta` with the fullscreen flag of the window `id` set to `fullscreen`.
pub open spec fn with_fullscreen(
    meta: Map<u64, WindowMeta>,
    id: u64,
    fullscreen: bool,
) -> Map<u64, WindowMeta> {
    if meta.contains_key(id) {
        meta.insert(id, WindowMeta { is_fullscreen: fullscreen, ..meta[id] })
    } else {
        meta
    }
}

/// `meta` with the window `id` on `workspace`.
pub open spec fn with_workspace(
    meta: Map<u64, WindowMeta>,
    id: u64,
    workspace: usize,
) -> Map<u64, WindowMeta> {
    if meta.contains_key(id) {
        meta.insert(id, WindowMeta { workspace, ..meta[id] })
    } else {
        meta
    }
}

impl Desktop {
    /// Looks a window up by its identifier.
    pub fn window_by_id(&self, id: u64) -> (window: Option<DesktopWindow>)
        ensures
            window == window_with_id(*self, id),
    {
        let ghost p = |w: DesktopWindow| w.id == id;
        for i in 0..self.windows.len()
            invariant
                p == (|w: DesktopWindow| w.id == id),
                forall|j: int| 0 <= j < i ==> !p(#[trigger] self.windows@[j]),
        {
            if self.windows[i].id == id {
                proof {
                    crate::search::first_match_at(self.windows@, p, i as int);
                }
                return Some(self.windows[i]);
            }
        }
        proof {
            crate::search::first_match_none(self.windows@, p);
        }
        None
    }

    /// Looks a window up by the surface that draws it.
    pub fn window_by_surface(&self, surface: u64) -> (window: Option<DesktopWindow>)
        ensures
            window == window_with_surface(*self, surface),
    {
        let ghost p = |w: DesktopWindow| w.surface == Some(surface);
        for i in 0..self.windows.len()
            invariant
                p == (|w: DesktopWindow| w.surface == Some(surface)),
                forall|j: int| 0 <= j < i ==> !p(#[trigger] self.windows@[j]),
        {
            let found = match self.windows[i].surface {
                Some(s) => s == surface,
                None => false,
            };
            if found {
                proof {
                    crate::search::first_match_at(self.windows@, p, i as int);
                }
                return Some(self.windows[i]);
            }
        }
        proof {
            crate::search::first_match_none(self.windows@, p);
        }
        None
    }

    /// The window that has the keyboard focus.
    pub fn focused_window(&self) -> (window: Option<DesktopWindow>)
        ensures
            window == focused_window(*self),
    {
        match self.keyboard_focus {
            Some(surface) => self.window_by_surface(surface),
            None => None,
        }
    }
}

impl BlueState {
    /// The state before anything has happened: no window, no output, no client. The
    /// last three are the globals of the protocols that the compositor keeps the
    /// state of.
    pub fn new(
        workspace_count: usize,
        dpms_timeout: u64,
        foreign_toplevel: u64,
        output_management: u64,
        screencopy: u64,
    ) -> (state: Self)
        ensures
            !state.show_switcher,
            state.switcher_index == 0,
            !state.super_pressed,
            !state.super_used,
            state.current_workspace == 0,
            state.workspace_count == workspace_count,
            !state.should_exit,
            state.dpms_timeout == dpms_timeout,
            state.window_meta@ == Map::<u64, WindowMeta>::empty(),
            state.outputs@ == Seq::<Output>::empty(),
            state.idle_inhibiting_surfaces@ == Seq::<InhibitingSurface>::empty(),
            state.input_method_popups@ == Seq::<TrackedImePopup>::empty(),
            state.surface_gpu_origin@ == Map::<u64, u64>::empty(),
            state.foreign_toplevel_state.global == foreign_toplevel,
            state.foreign_toplevel_state.managers@ == Seq::<u64>::empty(),
            state.foreign_toplevel_state.handles@ == Map::<u64, Vec<u64>>::empty(),
            state.output_management_state.global == output_management,
            state.output_management_state.managers@ == Seq::<u64>::empty(),
            state.output_management_state.heads@.len() == 0,
            state.output_management_state.pending@.dom() == Set::<u64>::empty(),
            state.output_management_state.serial == 0,
            state.screencopy_state.global == screencopy,
            state.screencopy_state.frames@.len() == 0,
            state.screencopy_state.pending@.len() == 0,
            state.backend_data == BackendData::Unset,
            !state.dmabuf_registered,
    {
        BlueState {
            show_switcher: false,
            switcher_index: 0,
            super_pressed: false,
            super_used: false,
            current_workspace: 0,
            workspace_count,
            should_exit: false,
            dpms_timeout,
            window_meta: HashMap::new(),
            outputs: Vec::new(),
            idle_inhibiting_surfaces: Vec::new(),
            input_method_popups: Vec::new(),
            surface_gpu_origin: HashMap::new(),
            foreign_toplevel_state: ForeignToplevelManagerState::new(foreign_toplevel),
            output_management_state: OutputManagementState::new(output_management),
            screencopy_state: ScreencopyState::new(screencopy),
            backend_data: BackendData::Unset,
            dmabuf_registered: false,
        }
    }

    /// Sets or clears the minimized flag of a window, if it is known.
    pub fn set_minimized(&mut self, id: u64, minimized: bool)
        ensures
            final(self).window_meta@ == with_minimized(old(self).window_meta@, id, minimized),
            *final(self) == (BlueState { window_meta: final(self).window_meta, ..*old(self) }),
    {
        match self.window_meta.remove(&id) {
            Some(mut meta) => {
                meta.is_minimized = minimized;
                self.window_meta.insert(id, meta);
                assert(self.window_meta@ =~= with_minimized(old(self).window_meta@, id, minimized));
            },
            None => {
                assert(self.window_meta@ =~= old(self).window_meta@);
            },
        }
    }

    /// Sets or clears the fullscreen flag of a window, if it is known.
    pub fn set_fullscreen(&mut self, id: u64, fullscreen: bool)
        ensures
            final(self).window_meta@ == with_fullscreen(old(self).window_meta@, id, fullscreen),
            *final(self) == (BlueState { window_meta: final(self).window_meta, ..*old(self) }),
    {
        match self.window_meta.remove(&id) {
            Some(mut meta) => {
                meta.is_fullscreen = fullscreen;
                self.window_meta.insert(id, meta);
                assert(self.window_meta@ =~= with_fullscreen(
                    old(self).window_meta@,
                    id,
                    fullscreen,
                ));
            },
            None => {
                assert(self.window_meta@ =~= old(self).window_meta@);
            },
        }
    }

    /// Puts a window on a workspace, if it is known.
    pub fn set_workspace(&mut self, id: u64, workspace: usize)
        ensures
            final(self).window_meta@ == with_workspace(old(self).window_meta@, id, workspace),
            *final(self) == (BlueState { window_meta: final(self).window_meta, ..*old(self) }),
    {
        match self.window_meta.remove(&id) {
            Some(mut meta) => {
                meta.workspace = workspace;
                self.window_meta.insert(id, meta);
                assert(self.window_meta@ =~= with_workspace(
                    old(self).window_meta@,
                    id,
                    workspace,
                ));
            },
            None => {
                assert(self.window_meta@ =~= old(self).window_meta@);
            },
        }
    }
}

/// A window that is found by its identifier is on screen and has it, and is the first such
/// one. Where none is found, none on screen has it.
pub proof fn windows_are_found_by_their_identifier(desktop: Desktop, id: u64)
    ensures
        match window_with_id(desktop, id) {
            Some(window) => window.id == id && exists|i: int|
                #![trigger desktop.windows@[i]]
                0 <= i < desktop.windows@.len() && desktop.windows@[i] == window && forall|j: int|
                    0 <= j < i ==> (#[trigger] desktop.windows@[j]).id != id,
            None => forall|i: int|
                0 <= i < desktop.windows@.len() ==> (#[trigger] desktop.windows@[i]).id != id,
        },
{
    let p = |w: DesktopWindow| w.id == id;
    let all = desktop.windows@;
    crate::search::first_index_meaning(all, p);
    match crate::search::first_index(all, p) {
        Some(k) => {
            assert forall|j: int| 0 <= j < k implies (#[trigger] all[j]).id != id by {
                assert(!p(all[j]));
            }
        },
        None => {
            assert forall|j: int| 0 <= j < all.len() implies (#[trigger] all[j]).id != id by {
                assert(!p(all[j]));
            }
        },
    }
}

/// A window that is found by its surface is on screen and is drawn by it, and is the first
/// such one. Where none is found, none on screen is drawn by it.
pub proof fn windows_are_found_by_their_surface(desktop: Desktop, surface: u64)
    ensures
        match window_with_surface(desktop, surface) {
            Some(window) => window.surface == Some(surface) && exists|i: int|
                #![trigger desktop.windows@[i]]
                0 <= i < desktop.windows@.len() && desktop.windows@[i] == window && forall|j: int|
                    0 <= j < i ==> (#[trigger] desktop.windows@[j]).surface != Some(surface),
            None => forall|i: int|
                0 <= i < desktop.windows@.len() ==> (#[trigger] desktop.windows@[i]).surface
                    != Some(surface),
        },
{
    let p = |w: DesktopWindow| w.surface == Some(surface);
    let all = desktop.windows@;
    crate::search::first_index_meaning(all, p);
    match crate::search::first_index(all, p) {
        Some(k) => {
            assert forall|j: int| 0 <= j < k implies (#[trigger] all[j]).surface != Some(
                surface,
            ) by {
                assert(!p(all[j]));
            }
        },
        None => {
            assert forall|j: int| 0 <= j < all.len() implies (#[trigger] all[j]).surface != Some(
                surface,
            ) by {
                assert(!p(all[j]));
            }
        },
    }
}

/// The focused window is drawn by the surface that has the keyboard focus. There is none
/// exactly if no surface has the focus, or no window on screen is drawn by it.
pub proof fn the_focused_window_has_the_keyboard_focus(desktop: Desktop)
    ensures
        focused_window(desktop) matches Some(window) ==> desktop.keyboard_focus is Some
            && window.surface == desktop.keyboard_focus && desktop.windows@.contains(window),
        focused_window(desktop) is None ==> desktop.keyboard_focus is None || forall|i: int|
            0 <= i < desktop.windows@.len() ==> (#[trigger] desktop.windows@[i]).surface
                != desktop.keyboard_focus,
{
    if desktop.keyboard_focus is Some {
        windows_are_found_by_their_surface(desktop, desktop.keyboard_focus->0);
    }
}

/// Setting a flag or the workspace of a window changes that and nothing else of it, and
/// leaves every other window alone. A window that is not known stays unknown.
pub proof fn only_the_asked_field_changes(
    meta: Map<u64, WindowMeta>,
    id: u64,
    other: u64,
    flag: bool,
    workspace: usize,
)
    ensures
        ({
            let minimized = with_minimized(meta, id, flag);
            let fullscreen = with_fullscreen(meta, id, flag);
            let moved = with_workspace(meta, id, workspace);
            &&& minimized.dom() == meta.dom()
            &&& fullscreen.dom() == meta.dom()
            &&& moved.dom() == meta.dom()
            &&& other != id && meta.contains_key(other) ==> minimized[other] == meta[other]
                && fullscreen[other] == meta[other] && moved[other] == meta[other]
            &&& meta.contains_key(id) ==> {
                &&& minimized[id].is_minimized == flag
                &&& minimized[id].is_fullscreen == meta[id].is_fullscreen
                &&& minimized[id].workspace == meta[id].workspace
                &&& fullscreen[id].is_fullscreen == flag
                &&& fullscreen[id].is_minimized == meta[id].is_minimized
                &&& fullscreen[id].workspace == meta[id].workspace
                &&& moved[id].workspace == workspace
                &&& moved[id].is_minimized == meta[id].is_minimized
                &&& moved[id].is_fullscreen == meta[id].is_fullscreen
                &&& minimized[id].title == meta[id].title && minimized[id].app_id
                    == meta[id].app_id
                &&& fullscreen[id].title == meta[id].title && fullscreen[id].app_id
                    == meta[id].app_id
                &&& moved[id].title == meta[id].title && moved[id].app_id == meta[id].app_id
            }
        }),
{
    assert(with_minimized(meta, id, flag).dom() =~= meta.dom());
    assert(with_fullscreen(meta, id, flag).dom() =~= meta.dom());
    assert(with_workspace(meta, id, workspace).dom() =~= meta.dom());
}

} // verus!
