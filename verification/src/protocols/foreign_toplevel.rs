//! `wlr-foreign-toplevel-management`: lists the windows to taskbars.

use crate::maps::{collect_keys, lists_keys};
use crate::state::{window_with_id, BlueState, Desktop, WindowKind, WindowMeta};
use std::collections::HashMap;
use vstd::prelude::*;

verus! {

broadcast use vstd::std_specs::hash::group_hash_axioms;

/// The version of the protocol that is offered.
pub const FOREIGN_TOPLEVEL_VERSION: u32 = 3;

/// Everything that is advertised to foreign-toplevel clients.
#[derive(Debug)]
pub struct ForeignToplevelManagerState {
    pub global: u64,
    /// Every client's bound manager object. A mapped window gets a handle
    /// against each of these.
    pub managers: Vec<u64>,
    /// The handles that stand for a window, by window, across all clients.
    pub handles: HashMap<u64, Vec<u64>>,
}

/// Leads from a handle back to the window that it stands for.
#[derive(Debug, Clone, Copy, PartialEq, Eq, Structural)]
pub struct ToplevelHandleData {
    pub window_id: u64,
}

/// The data of the global.
#[derive(Debug, Clone, Copy, PartialEq, Eq, Structural)]
pub struct ForeignToplevelManagerGlobalData;

/// A handle that is to be created against a manager.
#[derive(Debug, Clone, PartialEq, Eq)]
pub struct NewToplevel {
    pub manager: u64,
    pub window_id: u64,
    pub title: String,
    pub app_id: String,
}

/// A request on a handle.
#[derive(Debug, Clone, Copy, PartialEq, Eq, Structural)]
pub enum HandleRequest {
    SetMaximized,
    UnsetMaximized,
    SetMinimized,
    UnsetMinimized,
    Activate,
    Close,
    SetRectangle,
    Destroy,
    Other,
}

/// One thing to carry out for a request on a handle.
#[derive(Debug, Clone, Copy, PartialEq, Eq, Structural)]
pub enum HandleAction {
    /// Raise the window and activate it.
    Raise { window: u64 },
    /// Move the keyboard focus to the surface.
    SetFocus { surface: u64 },
    /// Ask the toplevel to close.
    SendClose { window: u64 },
    /// Ask the X11 window to close; a failure does not matter.
    CloseX11 { window: u64 },
}

/// An event that is sent to a client.
#[derive(Debug, Clone, PartialEq, Eq)]
pub enum ToplevelEvent {
    Toplevel { manager: u64, handle: u64 },
    Title { handle: u64, title: String },
    AppId { handle: u64, app_id: String },
    Done { handle: u64 },
    Closed { handle: u64 },
    Finished { manager: u64 },
}

/// [`ToplevelEvent`] with its text as sequences of characters.
pub enum ToplevelEventView {
    Toplevel { manager: u64, handle: u64 },
    Title { handle: u64, title: Seq<char> },
    AppId { handle: u64, app_id: Seq<char> },
    Done { handle: u64 },
    Closed { handle: u64 },
    Finished { manager: u64 },
}

impl View for ToplevelEvent {
    type V = ToplevelEventView;

    open spec fn view(&self) -> ToplevelEventView {
        match *self {
            ToplevelEvent::Toplevel { manager, handle } => ToplevelEventView::Toplevel {
                manager,
                handle,
            },
            ToplevelEvent::Title { handle, title } => ToplevelEventView::Title {
                handle,
                title: title@,
            },
            ToplevelEvent::AppId { handle, app_id } => ToplevelEventView::AppId {
                handle,
                app_id: app_id@,
            },
            ToplevelEvent::Done { handle } => ToplevelEventView::Done { handle },
            ToplevelEvent::Closed { handle } => ToplevelEventView::Closed { handle },
            ToplevelEvent::Finished { manager } => ToplevelEventView::Finished { manager },
        }
    }
}

/// The views of a list of events.
pub open spec fn event_views(events: Seq<ToplevelEvent>) -> Seq<ToplevelEventView> {
    events.map_values(|e: ToplevelEvent| e@)
}

/// The handles of each window, as sequences.
pub open spec fn handle_lists(handles: Map<u64, Vec<u64>>) -> Map<u64, Seq<u64>> {
    handles.map_values(|v: Vec<u64>| v@)
}

/// The handles of one window.
pub open spec fn handles_of(handles: Map<u64, Seq<u64>>, window_id: u64) -> Seq<u64> {
    if handles.contains_key(window_id) {
        handles[window_id]
    } else {
        Seq::empty()
    }
}

/// `handles` with one more handle for a window.
pub open spec fn with_handle(handles: Map<u64, Seq<u64>>, window_id: u64, handle: u64) -> Map<
    u64,
    Seq<u64>,
> {
    handles.insert(window_id, handles_of(handles, window_id).push(handle))
}

/// Tells all other objects from `gone`.
pub open spec fn is_other(gone: u64) -> spec_fn(u64) -> bool {
    |o: u64| o != gone
}

/// `list` without the object `gone`.
pub open spec fn others(list: Seq<u64>, gone: u64) -> Seq<u64> {
    list.filter(is_other(gone))
}

/// `handles` without one handle of a window.
pub open spec fn without_handle(handles: Map<u64, Seq<u64>>, window_id: u64, handle: u64) -> Map<
    u64,
    Seq<u64>,
> {
    if handles.contains_key(window_id) {
        handles.insert(window_id, others(handles[window_id], handle))
    } else {
        handles
    }
}

/// Whether `new` asks for a handle on the window `id` for `manager`.
pub open spec fn is_new_toplevel(
    new: NewToplevel,
    manager: u64,
    id: u64,
    meta: WindowMeta,
) -> bool {
    &&& new.manager == manager
    &&& new.window_id == id
    &&& new.title@ == meta.title@
    &&& new.app_id@ == meta.app_id@
}

/// What a client is told of a new handle.
pub open spec fn introduction(
    manager: u64,
    handle: u64,
    title: Seq<char>,
    app_id: Seq<char>,
) -> Seq<ToplevelEventView> {
    seq![
        ToplevelEventView::Toplevel { manager, handle },
        ToplevelEventView::Title { handle, title },
        ToplevelEventView::AppId { handle, app_id },
        ToplevelEventView::Done { handle },
    ]
}

/// What the clients are told when the title or the application of a window
/// changes: each handle gets both, and is then done.
pub open spec fn renaming(handles: Seq<u64>, title: Seq<char>, app_id: Seq<char>) -> Seq<
    ToplevelEventView,
>
    decreases handles.len(),
{
    if handles.len() == 0 {
        Seq::empty()
    } else {
        let handle = handles.last();
        renaming(handles.drop_last(), title, app_id) + seq![
            ToplevelEventView::Title { handle, title },
            ToplevelEventView::AppId { handle, app_id },
            ToplevelEventView::Done { handle },
        ]
    }
}

/// What the clients are told when a window goes away.
pub open spec fn closing(handles: Seq<u64>) -> Seq<ToplevelEventView> {
    handles.map_values(|handle: u64| ToplevelEventView::Closed { handle })
}

/// What is carried out for a request on a handle. A window that is not on screen
/// is left alone.
pub open spec fn handle_actions(desktop: Desktop, window_id: u64, request: HandleRequest) -> Seq<
    HandleAction,
> {
    match (window_with_id(desktop, window_id), request) {
        (Some(window), HandleRequest::Activate) => match window.surface {
            Some(surface) if desktop.has_keyboard => seq![
                HandleAction::Raise { window: window_id },
                HandleAction::SetFocus { surface },
            ],
            _ => seq![HandleAction::Raise { window: window_id }],
        },
        (Some(window), HandleRequest::Close) => match window.kind {
            WindowKind::Toplevel { .. } => seq![HandleAction::SendClose { window: window_id }],
            WindowKind::X11 => seq![HandleAction::CloseX11 { window: window_id }],
            WindowKind::Other => Seq::empty(),
        },
        _ => Seq::empty(),
    }
}

/// The handles after a request on one: destroying it takes it out, while its
/// window is on screen.
pub open spec fn handles_after(
    handles: Map<u64, Seq<u64>>,
    desktop: Desktop,
    window_id: u64,
    handle: u64,
    request: HandleRequest,
) -> Map<u64, Seq<u64>> {
    if request == HandleRequest::Destroy && window_with_id(desktop, window_id) is Some {
        without_handle(handles, window_id, handle)
    } else {
        handles
    }
}

impl ForeignToplevelManagerState {
    /// No client yet.
    pub fn new(global: u64) -> (state: Self)
        ensures
            state.global == global,
            state.managers@ == Seq::<u64>::empty(),
            state.handles@ == Map::<u64, Vec<u64>>::empty(),
    {
        ForeignToplevelManagerState { global, managers: Vec::new(), handles: HashMap::new() }
    }

    /// The global that clients bind.
    pub fn global_id(&self) -> (global: u64)
        ensures
            global == self.global,
    {
        self.global
    }

    /// A client wants no more toplevels on this manager.
    pub fn stop(&mut self, manager: u64) -> (events: Vec<ToplevelEvent>)
        ensures
            event_views(events@) == seq![ToplevelEventView::Finished { manager }],
            final(self).managers@ == others(old(self).managers@, manager),
            forall|m: u64| #[trigger]
                final(self).managers@.contains(m) <==> old(self).managers@.contains(m) && m
                    != manager,
            *final(self) == (ForeignToplevelManagerState {
                managers: final(self).managers,
                ..*old(self)
            }),
    {
        let kept = retain_others(&self.managers, manager);
        assert forall|m: u64| #[trigger] kept@.contains(m) <==> self.managers@.contains(m) && m
            != manager by {
            a_stopped_manager_is_forgotten(self.managers@, manager, m);
        }
        self.managers = kept;
        let mut events: Vec<ToplevelEvent> = Vec::new();
        events.push(ToplevelEvent::Finished { manager });
        assert(event_views(events@) =~= seq![ToplevelEventView::Finished { manager }]);
        events
    }

    fn add_handle(&mut self, window_id: u64, handle: u64)
        ensures
            handle_lists(final(self).handles@) == with_handle(
                handle_lists(old(self).handles@),
                window_id,
                handle,
            ),
            *final(self) == (ForeignToplevelManagerState {
                handles: final(self).handles,
                ..*old(self)
            }),
    {
        let mut list = match self.handles.remove(&window_id) {
            Some(list) => list,
            None => Vec::new(),
        };
        list.push(handle);
        self.handles.insert(window_id, list);
        assert(handle_lists(self.handles@) =~= with_handle(
            handle_lists(old(self).handles@),
            window_id,
            handle,
        ));
    }

    fn drop_handle(&mut self, window_id: u64, handle: u64)
        ensures
            handle_lists(final(self).handles@) == without_handle(
                handle_lists(old(self).handles@),
                window_id,
                handle,
            ),
            *final(self) == (ForeignToplevelManagerState {
                handles: final(self).handles,
                ..*old(self)
            }),
    {
        match self.handles.remove(&window_id) {
            Some(list) => {
                let kept = retain_others(&list, handle);
                self.handles.insert(window_id, kept);
            },
            None => {},
        }
        assert(handle_lists(self.handles@) =~= without_handle(
            handle_lists(old(self).handles@),
            window_id,
            handle,
        ));
    }
}

fn retain_others(list: &Vec<u64>, gone: u64) -> (kept: Vec<u64>)
    ensures
        kept@ == others(list@, gone),
{
    let ghost p = is_other(gone);
    let mut kept: Vec<u64> = Vec::new();
    assert(list@.take(0).filter(p) =~= kept@) by {
        reveal(Seq::filter);
    }
    for i in 0..list.len()
        invariant
            p == is_other(gone),
            kept@ == list@.take(i as int).filter(p),
    {
        proof {
            crate::search::filter_step(list@, p, i as int);
        }
        if list[i] != gone {
            kept.push(list[i]);
        }
    }
    assert(list@.take(list@.len() as int) =~= list@);
    kept
}

impl BlueState {
    /// A client has bound the manager: every window that is known gets a handle for
    /// it, in no particular order, and so do those that are mapped later.
    pub fn bind_foreign_toplevel_manager(&mut self, manager: u64) -> (new: Vec<NewToplevel>)
        ensures
            lists_keys(new@.map_values(|n: NewToplevel| n.window_id), old(self).window_meta@),
            forall|i: int|
                0 <= i < new@.len() ==> is_new_toplevel(
                    #[trigger] new@[i],
                    manager,
                    new@[i].window_id,
                    old(self).window_meta@[new@[i].window_id],
                ),
            final(self).foreign_toplevel_state.managers@ == old(
                self,
            ).foreign_toplevel_state.managers@.push(manager),
            *final(self) == (BlueState {
                foreign_toplevel_state: ForeignToplevelManagerState {
                    managers: final(self).foreign_toplevel_state.managers,
                    ..old(self).foreign_toplevel_state
                },
                ..*old(self)
            }),
    {
        let ids = collect_keys(&self.window_meta);
        let mut new: Vec<NewToplevel> = Vec::new();
        for i in 0..ids.len()
            invariant
                *self == *old(self),
                lists_keys(ids@, self.window_meta@),
                new@.len() == i,
                forall|j: int|
                    0 <= j < i ==> #[trigger] new@[j].window_id == ids@[j] && is_new_toplevel(
                        new@[j],
                        manager,
                        new@[j].window_id,
                        self.window_meta@[new@[j].window_id],
                    ),
        {
            assert(ids@.contains(ids@[i as int]));
            match self.window_meta.get(&ids[i]) {
                Some(meta) => {
                    new.push(
                        NewToplevel {
                            manager,
                            window_id: ids[i],
                            title: meta.title.clone(),
                            app_id: meta.app_id.clone(),
                        },
                    );
                },
                None => {},
            }
        }
        assert(new@.map_values(|n: NewToplevel| n.window_id) =~= ids@);
        self.foreign_toplevel_state.managers.push(manager);
        new
    }

    /// A handle was created for a window, or could not be. The client is introduced
    /// to a new handle.
    pub fn emit_new_toplevel(&mut self, new: NewToplevel, handle: Option<u64>) -> (events: Vec<
        ToplevelEvent,
    >)
        ensures
            match handle {
                Some(h) => {
                    &&& event_views(events@) == introduction(
                        new.manager,
                        h,
                        new.title@,
                        new.app_id@,
                    )
                    &&& handle_lists(final(self).foreign_toplevel_state.handles@) == with_handle(
                        handle_lists(old(self).foreign_toplevel_state.handles@),
                        new.window_id,
                        h,
                    )
                },
                None => events@.len() == 0 && *final(self) == *old(self),
            },
            *final(self) == (BlueState {
                foreign_toplevel_state: ForeignToplevelManagerState {
                    handles: final(self).foreign_toplevel_state.handles,
                    ..old(self).foreign_toplevel_state
                },
                ..*old(self)
            }),
    {
        let mut events: Vec<ToplevelEvent> = Vec::new();
        match handle {
            Some(h) => {
                events.push(ToplevelEvent::Toplevel { manager: new.manager, handle: h });
                events.push(ToplevelEvent::Title { handle: h, title: new.title });
                events.push(ToplevelEvent::AppId { handle: h, app_id: new.app_id });
                events.push(ToplevelEvent::Done { handle: h });
                self.foreign_toplevel_state.add_handle(new.window_id, h);
                assert(event_views(events@) =~= introduction(
                    new.manager,
                    h,
                    new.title@,
                    new.app_id@,
                ));
            },
            None => {},
        }
        events
    }

    /// A window is mapped for the first time: it gets a handle for each manager.
    pub fn notify_toplevel_mapped(&self, window_id: u64) -> (new: Vec<NewToplevel>)
        ensures
            new@.len() == if self.window_meta@.contains_key(window_id) {
                self.foreign_toplevel_state.managers@.len()
            } else {
                0
            },
            forall|i: int|
                0 <= i < new@.len() ==> is_new_toplevel(
                    #[trigger] new@[i],
                    self.foreign_toplevel_state.managers@[i],
                    window_id,
                    self.window_meta@[window_id],
                ),
    {
        let mut new: Vec<NewToplevel> = Vec::new();
        match self.window_meta.get(&window_id) {
            Some(meta) => {
                for i in 0..self.foreign_toplevel_state.managers.len()
                    invariant
                        self.window_meta@.contains_key(window_id),
                        *meta == self.window_meta@[window_id],
                        new@.len() == i,
                        forall|j: int|
                            0 <= j < i ==> is_new_toplevel(
                                #[trigger] new@[j],
                                self.foreign_toplevel_state.managers@[j],
                                window_id,
                                self.window_meta@[window_id],
                            ),
                {
                    new.push(
                        NewToplevel {
                            manager: self.foreign_toplevel_state.managers[i],
                            window_id,
                            title: meta.title.clone(),
                            app_id: meta.app_id.clone(),
                        },
                    );
                }
            },
            None => {},
        }
        new
    }

    /// A window is unmapped or destroyed: its handles are closed and forgotten.
    pub fn notify_toplevel_unmapped(&mut self, window_id: u64) -> (events: Vec<ToplevelEvent>)
        ensures
            event_views(events@) == closing(
                handles_of(handle_lists(old(self).foreign_toplevel_state.handles@), window_id),
            ),
            handle_lists(final(self).foreign_toplevel_state.handles@) == handle_lists(
                old(self).foreign_toplevel_state.handles@,
            ).remove(window_id),
            *final(self) == (BlueState {
                foreign_toplevel_state: ForeignToplevelManagerState {
                    handles: final(self).foreign_toplevel_state.handles,
                    ..old(self).foreign_toplevel_state
                },
                ..*old(self)
            }),
    {
        let mut events: Vec<ToplevelEvent> = Vec::new();
        let ghost lists = handle_lists(self.foreign_toplevel_state.handles@);
        let removed = self.foreign_toplevel_state.handles.remove(&window_id);
        assert(handle_lists(self.foreign_toplevel_state.handles@) =~= lists.remove(window_id));
        match removed {
            Some(list) => {
                for i in 0..list.len()
                    invariant
                        event_views(events@) == closing(list@.take(i as int)),
                {
                    let ghost sent = event_views(events@);
                    events.push(ToplevelEvent::Closed { handle: list[i] });
                    assert(event_views(events@) =~= sent.push(
                        ToplevelEventView::Closed { handle: list@[i as int] },
                    ));
                    assert(closing(list@.take(i + 1)) =~= closing(list@.take(i as int)).push(
                        ToplevelEventView::Closed { handle: list@[i as int] },
                    ));
                }
                assert(list@.take(list@.len() as int) =~= list@);
            },
            None => {
                assert(event_views(events@) =~= closing(Seq::<u64>::empty()));
            },
        }
        events
    }

    /// The title or the application of a window has changed.
    pub fn notify_toplevel_title_appid(&self, window_id: u64, title: &str, app_id: &str) -> (events:
        Vec<ToplevelEvent>)
        ensures
            event_views(events@) == renaming(
                handles_of(handle_lists(self.foreign_toplevel_state.handles@), window_id),
                title@,
                app_id@,
            ),
    {
        let mut events: Vec<ToplevelEvent> = Vec::new();
        match self.foreign_toplevel_state.handles.get(&window_id) {
            Some(list) => {
                assert(event_views(events@) =~= renaming(list@.take(0), title@, app_id@));
                for i in 0..list.len()
                    invariant
                        event_views(events@) == renaming(list@.take(i as int), title@, app_id@),
                {
                    let handle: u64 = list[i];
                    events.push(ToplevelEvent::Title { handle, title: title.to_string() });
                    events.push(ToplevelEvent::AppId { handle, app_id: app_id.to_string() });
                    events.push(ToplevelEvent::Done { handle });
                    assert(list@.take(i + 1).drop_last() =~= list@.take(i as int));
                    assert(event_views(events@) =~= renaming(list@.take(i + 1), title@, app_id@));
                }
                assert(list@.take(list@.len() as int) =~= list@);
            },
            None => {
                assert(event_views(events@) =~= renaming(Seq::<u64>::empty(), title@, app_id@));
            },
        }
        events
    }

    /// Takes in a request on a handle.
    pub fn handle_toplevel_request(
        &mut self,
        desktop: &Desktop,
        data: ToplevelHandleData,
        handle: u64,
        request: HandleRequest,
    ) -> (actions: Vec<HandleAction>)
        ensures
            actions@ == handle_actions(*desktop, data.window_id, request),
            handle_lists(final(self).foreign_toplevel_state.handles@) == handles_after(
                handle_lists(old(self).foreign_toplevel_state.handles@),
                *desktop,
                data.window_id,
                handle,
                request,
            ),
            *final(self) == (BlueState {
                foreign_toplevel_state: ForeignToplevelManagerState {
                    handles: final(self).foreign_toplevel_state.handles,
                    ..old(self).foreign_toplevel_state
                },
                ..*old(self)
            }),
    {
        let mut actions: Vec<HandleAction> = Vec::new();
        match desktop.window_by_id(data.window_id) {
            Some(window) => match request {
                HandleRequest::Activate => {
                    actions.push(HandleAction::Raise { window: data.window_id });
                    if desktop.has_keyboard {
                        match window.surface {
                            Some(surface) => {
                                actions.push(HandleAction::SetFocus { surface });
                            },
                            None => {},
                        }
                    }
                },
                HandleRequest::Close => match window.kind {
                    WindowKind::Toplevel { maximized: _ } => {
                        actions.push(HandleAction::SendClose { window: data.window_id });
                    },
                    WindowKind::X11 => {
                        actions.push(HandleAction::CloseX11 { window: data.window_id });
                    },
                    WindowKind::Other => {},
                },
                HandleRequest::Destroy => {
                    self.foreign_toplevel_state.drop_handle(data.window_id, handle);
                },
                _ => {},
            },
            None => {},
        }
        assert(actions@ =~= handle_actions(*desktop, data.window_id, request));
        actions
    }
}

/// Every handle that was created for a window is closed when the window goes away,
/// in the order in which they were created, and is closed only then.
pub proof fn created_handles_are_closed(
    handles: Map<u64, Seq<u64>>,
    window_id: u64,
    handle: u64,
    other: u64,
)
    ensures
        closing(handles_of(with_handle(handles, window_id, handle), window_id)) == closing(
            handles_of(handles, window_id),
        ).push(ToplevelEventView::Closed { handle }),
        other != window_id ==> handles_of(with_handle(handles, window_id, handle), other)
            == handles_of(handles, other),
{
    assert(closing(handles_of(with_handle(handles, window_id, handle), window_id)) =~= closing(
        handles_of(handles, window_id),
    ).push(ToplevelEventView::Closed { handle }));
}

/// A window that has gone away once is not closed again.
pub proof fn closing_happens_once(handles: Map<u64, Seq<u64>>, window_id: u64)
    ensures
        closing(handles_of(handles.remove(window_id), window_id)) == Seq::<
            ToplevelEventView,
        >::empty(),
{
    assert(closing(handles_of(handles.remove(window_id), window_id)) =~= Seq::<
        ToplevelEventView,
    >::empty());
}

/// A handle that its client destroys while its window is on screen is neither renamed
/// nor closed later; the other handles of the window are.
pub proof fn a_destroyed_handle_is_forgotten(
    handles: Map<u64, Seq<u64>>,
    desktop: Desktop,
    window_id: u64,
    handle: u64,
    other: u64,
)
    requires
        window_with_id(desktop, window_id) is Some,
    ensures
        ({
            let after = handles_after(
                handles,
                desktop,
                window_id,
                handle,
                HandleRequest::Destroy,
            );
            &&& !handles_of(after, window_id).contains(handle)
            &&& other != handle ==> (handles_of(after, window_id).contains(other) <==> handles_of(
                handles,
                window_id,
            ).contains(other))
        }),
{
    if handles.contains_key(window_id) {
        let p = is_other(handle);
        crate::search::filter_membership(handles[window_id], p, handle);
        crate::search::filter_membership(handles[window_id], p, other);
    }
}

/// A manager that was stopped gets no handle for a window that is mapped later.
pub proof fn a_stopped_manager_is_forgotten(managers: Seq<u64>, manager: u64, other: u64)
    ensures
        !others(managers, manager).contains(manager),
        other != manager ==> (others(managers, manager).contains(other) <==> managers.contains(
            other,
        )),
{
    let p = is_other(manager);
    crate::search::filter_membership(managers, p, manager);
    crate::search::filter_membership(managers, p, other);
}

/// Activating a window on screen raises it, and moves the keyboard focus to its surface
/// where there is a keyboard and the window has one. It does nothing else.
pub proof fn activating_raises_and_focuses(desktop: Desktop, window_id: u64)
    requires
        window_with_id(desktop, window_id) is Some,
    ensures
        ({
            let window = window_with_id(desktop, window_id)->0;
            let actions = handle_actions(desktop, window_id, HandleRequest::Activate);
            &&& actions.len() >= 1 && actions[0] == (HandleAction::Raise { window: window_id })
            &&& desktop.has_keyboard && window.surface is Some ==> actions.len() == 2 && actions[1]
                == (HandleAction::SetFocus { surface: window.surface->0 })
            &&& !desktop.has_keyboard || window.surface is None ==> actions.len() == 1
        }),
{
}

/// Closing is asked of exactly the window that the handle stands for, in the way of its
/// kind.
pub proof fn closing_is_asked_of_the_window(desktop: Desktop, window_id: u64)
    requires
        window_with_id(desktop, window_id) is Some,
    ensures
        ({
            let kind = window_with_id(desktop, window_id)->0.kind;
            let actions = handle_actions(desktop, window_id, HandleRequest::Close);
            &&& kind is Toplevel ==> actions.len() == 1 && actions[0] == (HandleAction::SendClose {
                window: window_id,
            })
            &&& kind is X11 ==> actions.len() == 1 && actions[0] == (HandleAction::CloseX11 {
                window: window_id,
            })
            &&& kind is Other ==> actions.len() == 0
        }),
{
}

/// No other request asks anything of a window, and no request does of one that is not on
/// screen. Only destroying a handle changes which handles there are, and only those of its
/// window.
pub proof fn other_requests_do_nothing(
    handles: Map<u64, Seq<u64>>,
    desktop: Desktop,
    window_id: u64,
    handle: u64,
    request: HandleRequest,
    other: u64,
)
    ensures
        request != HandleRequest::Activate && request != HandleRequest::Close || window_with_id(
            desktop,
            window_id,
        ) is None ==> handle_actions(desktop, window_id, request).len() == 0,
        request != HandleRequest::Destroy || window_with_id(desktop, window_id) is None
            ==> handles_after(handles, desktop, window_id, handle, request) == handles,
        other != window_id ==> handles_of(
            handles_after(handles, desktop, window_id, handle, request),
            other,
        ) == handles_of(handles, other),
{
}

/// A new handle is introduced by its manager first, then by the title and the application of
/// its window, and is then done.
pub proof fn new_handles_are_introduced(
    manager: u64,
    handle: u64,
    title: Seq<char>,
    app_id: Seq<char>,
)
    ensures
        ({
            let events = introduction(manager, handle, title, app_id);
            &&& events.len() == 4
            &&& events[0] == (ToplevelEventView::Toplevel { manager, handle })
            &&& events[1] == (ToplevelEventView::Title { handle, title })
            &&& events[2] == (ToplevelEventView::AppId { handle, app_id })
            &&& events[3] == (ToplevelEventView::Done { handle })
        }),
{
}

/// Every handle of a window is told its new title and its new application, in this order,
/// and is then done; the handles are told in the order in which they were created.
pub proof fn every_handle_is_renamed(
    handles: Seq<u64>,
    title: Seq<char>,
    app_id: Seq<char>,
    i: int,
)
    ensures
        renaming(handles, title, app_id).len() == 3 * handles.len(),
        0 <= i < handles.len() ==> {
            let events = renaming(handles, title, app_id);
            &&& events[3 * i] == (ToplevelEventView::Title { handle: handles[i], title })
            &&& events[3 * i + 1] == (ToplevelEventView::AppId { handle: handles[i], app_id })
            &&& events[3 * i + 2] == (ToplevelEventView::Done { handle: handles[i] })
        },
    decreases handles.len(),
{
    if handles.len() > 0 {
        every_handle_is_renamed(handles.drop_last(), title, app_id, i);
    }
}

/// Every handle of a window that goes away is told so, once, in order.
pub proof fn every_handle_is_closed(handles: Seq<u64>, i: int)
    ensures
        closing(handles).len() == handles.len(),
        0 <= i < handles.len() ==> closing(handles)[i] == (ToplevelEventView::Closed {
            handle: handles[i],
        }),
{
}

/// A handle that is asked for stands for the window it is asked for, under the title and the
/// application that are remembered of that window.
pub proof fn new_handles_stand_for_their_window(
    new: NewToplevel,
    manager: u64,
    id: u64,
    meta: WindowMeta,
)
    ensures
        is_new_toplevel(new, manager, id, meta) <==> new.manager == manager && new.window_id == id
            && new.title@ == meta.title@ && new.app_id@ == meta.app_id@,
{
}

/// A new handle comes after those that a window has; a window without any has none.
pub proof fn handles_are_kept_in_order(
    handles: Map<u64, Seq<u64>>,
    window_id: u64,
    handle: u64,
    i: int,
)
    ensures
        ({
            let before = handles_of(handles, window_id);
            let after = handles_of(with_handle(handles, window_id, handle), window_id);
            &&& after.len() == before.len() + 1
            &&& after.last() == handle
            &&& 0 <= i < before.len() ==> after[i] == before[i]
            &&& !handles.contains_key(window_id) ==> before.len() == 0
        }),
{
}

/// The view of an event keeps its kind and everything that it holds; lists are viewed one by
/// one, in order.
pub proof fn event_views_lose_nothing(
    event: ToplevelEvent,
    events: Seq<ToplevelEvent>,
    i: int,
    handles: Map<u64, Vec<u64>>,
    window_id: u64,
)
    ensures
        match event {
            ToplevelEvent::Toplevel { manager, handle } => event@ == (
            ToplevelEventView::Toplevel { manager, handle }),
            ToplevelEvent::Title { handle, title } => event@ == (ToplevelEventView::Title {
                handle,
                title: title@,
            }),
            ToplevelEvent::AppId { handle, app_id } => event@ == (ToplevelEventView::AppId {
                handle,
                app_id: app_id@,
            }),
            ToplevelEvent::Done { handle } => event@ == (ToplevelEventView::Done { handle }),
            ToplevelEvent::Closed { handle } => event@ == (ToplevelEventView::Closed { handle }),
            ToplevelEvent::Finished { manager } => event@ == (ToplevelEventView::Finished {
                manager,
            }),
        },
        event_views(events).len() == events.len(),
        0 <= i < events.len() ==> event_views(events)[i] == events[i]@,
        handle_lists(handles).contains_key(window_id) <==> handles.contains_key(window_id),
        handles.contains_key(window_id) ==> handle_lists(handles)[window_id] == handles[window_id]@,
{
}

} // verus!
