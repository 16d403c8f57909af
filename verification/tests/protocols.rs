use blue_compositor::geometry::{Point, Rectangle, Size};
use blue_compositor::ipc::messages::CompositorMessage;
use blue_compositor::output::{Output, OutputMode, OutputTransform, Scale};
use blue_compositor::protocols::dmabuf::{
    dmabuf_global, init_dmabuf, scanout_candidate_formats, DmabufGlobal, Format, ARGB2101010,
    ARGB8888, LINEAR, XRGB2101010, XRGB8888,
};
use blue_compositor::protocols::foreign_toplevel::{
    ForeignToplevelManagerState, HandleAction, HandleRequest, NewToplevel, ToplevelEvent,
    ToplevelHandleData,
};
use blue_compositor::protocols::hotplug::{
    handle_udev_event, list_connected_connectors, rescan_outputs, UdevEvent,
};
use blue_compositor::protocols::idle_inhibit::init;
use blue_compositor::protocols::input_method::{
    parent_geometry, popup_created, popup_dismissed, popup_repositioned, render_elements,
    MappedLayer, PopupElement, PopupOnScreen,
};
use blue_compositor::protocols::screencopy::{
    copy_pixels, handle_manager_request, report_capture, send_buffer_offer, service_screencopy,
    FrameEvent, FrameRequest, ManagerRequest, ScreencopyState,
};
use blue_compositor::state::{BlueState, Desktop, DesktopWindow, WindowKind, WindowMeta};

fn output(id: u64, name: &str, mode: Option<OutputMode>) -> Output {
    Output {
        id,
        name: name.to_string(),
        make: "Make".to_string(),
        model: "Model".to_string(),
        physical_size: Size { w: 300, h: 200 },
        modes: mode.into_iter().collect(),
        current_mode: mode,
        preferred_mode: mode,
        location: Point { x: 0, y: 0 },
        transform: OutputTransform::Normal,
        scale: Scale::Integer { factor: 1 },
    }
}

fn mode(w: i32, h: i32) -> OutputMode {
    OutputMode { size: Size { w, h }, refresh: 60_000 }
}

fn state() -> BlueState {
    let mut s = BlueState::new(4, 300, 1, 2, 3);
    s.outputs.push(output(1, "eDP-1", Some(mode(1920, 1080))));
    s.outputs.push(output(2, "DP-1", None));
    s.window_meta.insert(
        10,
        WindowMeta {
            title: "Editor".to_string(),
            app_id: "org.editor".to_string(),
            workspace: 0,
            is_minimized: false,
            is_fullscreen: false,
        },
    );
    s
}

fn rect(x: i32, y: i32, w: i32, h: i32) -> Rectangle {
    Rectangle { loc: Point { x, y }, size: Size { w, h } }
}

fn desktop() -> Desktop {
    Desktop {
        windows: vec![
            DesktopWindow {
                id: 10,
                surface: Some(100),
                kind: WindowKind::Toplevel { maximized: false },
                geometry: Some(rect(5, 6, 70, 80)),
            },
            DesktopWindow { id: 11, surface: Some(101), kind: WindowKind::X11, geometry: None },
            DesktopWindow { id: 12, surface: None, kind: WindowKind::Other, geometry: None },
        ],
        has_keyboard: true,
        keyboard_focus: None,
        first_output_geometry: None,
    }
}

// Screen capture

#[test]
fn a_frame_is_offered_a_buffer() {
    let s = state();
    assert_eq!(
        send_buffer_offer(&s.outputs, "eDP-1", None),
        vec![
            FrameEvent::Buffer { width: 1920, height: 1080, stride: 7680 },
            FrameEvent::BufferDone,
        ]
    );
    assert_eq!(
        send_buffer_offer(&s.outputs, "eDP-1", Some(rect(1, 2, 30, 40))),
        vec![FrameEvent::Buffer { width: 30, height: 40, stride: 120 }, FrameEvent::BufferDone]
    );
    assert_eq!(send_buffer_offer(&s.outputs, "DP-1", None), vec![FrameEvent::Failed]);
    assert_eq!(send_buffer_offer(&s.outputs, "HDMI-1", None), vec![FrameEvent::Failed]);
}

#[test]
fn manager_requests_offer_buffers() {
    let mut s = state();
    let name = Some("eDP-1".to_string());
    assert_eq!(
        handle_manager_request(
            &mut s,
            1,
            ManagerRequest::CaptureOutput { output_name: name.clone() }
        ),
        send_buffer_offer(&s.outputs, "eDP-1", None)
    );
    assert_eq!(
        handle_manager_request(
            &mut s,
            2,
            ManagerRequest::CaptureOutputRegion { output_name: name, x: 9, y: 9, width: 3, height: 4 }
        ),
        vec![FrameEvent::Buffer { width: 3, height: 4, stride: 12 }, FrameEvent::BufferDone]
    );
    assert_eq!(
        handle_manager_request(&mut s, 3, ManagerRequest::CaptureOutput { output_name: None }),
        vec![FrameEvent::Failed]
    );
    assert_eq!(handle_manager_request(&mut s, 4, ManagerRequest::Destroy), vec![]);
    assert_eq!(handle_manager_request(&mut s, 5, ManagerRequest::Other), vec![]);
    let mut frames: Vec<(u64, String)> =
        s.screencopy_state.frames.iter().map(|(f, n)| (*f, n.clone())).collect();
    frames.sort();
    assert_eq!(
        frames,
        vec![(1, "eDP-1".to_string()), (2, "eDP-1".to_string()), (3, String::new())]
    );
}

#[test]
fn a_copy_is_served_by_the_output_of_its_frame() {
    let mut s = state();
    s.outputs.push(output(1, "A", Some(mode(4, 2))));
    s.outputs.push(output(2, "B", Some(mode(4, 2))));
    for (frame, name) in [(1, "A"), (2, "B")] {
        let output_name = Some(name.to_string());
        handle_manager_request(&mut s, frame, ManagerRequest::CaptureOutput { output_name });
    }
    let sc = &mut s.screencopy_state;
    sc.handle_frame_request(1, FrameRequest::Copy { buffer: 11 });
    sc.handle_frame_request(2, FrameRequest::CopyWithDamage { buffer: 12 });
    assert!(service_screencopy(sc, "B", &None).is_empty());
    let due = service_screencopy(sc, "A", &None);
    assert_eq!(due.iter().map(|p| (p.frame, p.buffer)).collect::<Vec<_>>(), vec![(1, 11)]);
    let due = service_screencopy(sc, "B", &Some(vec![rect(0, 0, 1, 1)]));
    assert_eq!(due.iter().map(|p| (p.frame, p.buffer)).collect::<Vec<_>>(), vec![(2, 12)]);
    sc.handle_frame_request(1, FrameRequest::Destroy);
    assert!(!sc.frames.contains_key(&1) && sc.frames.contains_key(&2));
}

fn waiting() -> ScreencopyState {
    let mut sc = ScreencopyState::new(7);
    sc.handle_frame_request(1, FrameRequest::Copy { buffer: 11 });
    sc.pending[0].output_name = "A".to_string();
    sc.handle_frame_request(1, FrameRequest::CopyWithDamage { buffer: 12 });
    sc.handle_frame_request(2, FrameRequest::Copy { buffer: 13 });
    sc.handle_frame_request(1, FrameRequest::Copy { buffer: 14 });
    sc
}

#[test]
fn copies_queue_up_under_the_name_of_their_frame() {
    let sc = waiting();
    assert_eq!(sc.global_id(), 7);
    let queued: Vec<(u64, u64, &str, bool)> = sc
        .pending
        .iter()
        .map(|p| (p.frame, p.buffer, p.output_name.as_str(), p.with_damage))
        .collect();
    assert_eq!(
        queued,
        vec![(1, 11, "A", false), (1, 12, "A", true), (2, 13, "", false), (1, 14, "A", false)]
    );
}

#[test]
fn a_pass_serves_its_output_and_keeps_the_rest() {
    let mut sc = waiting();
    let due = service_screencopy(&mut sc, "A", &None);
    assert_eq!(due.iter().map(|p| p.buffer).collect::<Vec<_>>(), vec![11, 14]);
    assert_eq!(sc.pending.iter().map(|p| p.buffer).collect::<Vec<_>>(), vec![12, 13]);
    assert!(service_screencopy(&mut sc, "A", &Some(vec![])).is_empty());
    let due = service_screencopy(&mut sc, "A", &Some(vec![rect(0, 0, 1, 1)]));
    assert_eq!(due.iter().map(|p| p.buffer).collect::<Vec<_>>(), vec![12]);
    assert!(service_screencopy(&mut sc, "A", &Some(vec![rect(0, 0, 1, 1)])).is_empty());
    assert_eq!(sc.pending.len(), 1);
}

#[test]
fn destroying_a_frame_cancels_its_copies() {
    let mut sc = waiting();
    sc.handle_frame_request(1, FrameRequest::Other);
    assert_eq!(sc.pending.len(), 4);
    sc.handle_frame_request(1, FrameRequest::Destroy);
    assert_eq!(sc.pending.iter().map(|p| p.frame).collect::<Vec<_>>(), vec![2]);
}

#[test]
fn a_capture_is_reported_with_its_damage_and_time() {
    let damage = Some(vec![rect(-1, 2, 3, 4), rect(5, 6, 7, 8)]);
    let seconds = 5 * 0x1_0000_0000 + 9;
    assert_eq!(
        report_capture(true, true, &damage, seconds, 77),
        vec![
            FrameEvent::Flags,
            FrameEvent::Damage { x: u32::MAX, y: 2, width: 3, height: 4 },
            FrameEvent::Damage { x: 5, y: 6, width: 7, height: 8 },
            FrameEvent::Ready { seconds_high: 5, seconds_low: 9, nanoseconds: 77 },
        ]
    );
    assert_eq!(
        report_capture(true, false, &damage, 9, 0),
        vec![
            FrameEvent::Flags,
            FrameEvent::Ready { seconds_high: 0, seconds_low: 9, nanoseconds: 0 },
        ]
    );
    assert_eq!(report_capture(false, true, &damage, seconds, 77), vec![FrameEvent::Failed]);
}

#[test]
fn pixels_are_copied_as_far_as_they_fit() {
    let mut small = [0u8; 3];
    copy_pixels(&mut small, &[1, 2, 3, 4, 5]);
    assert_eq!(small, [1, 2, 3]);
    let mut large = [9u8; 4];
    copy_pixels(&mut large, &[1, 2]);
    assert_eq!(large, [1, 2, 9, 9]);
}

// Foreign toplevels

#[test]
fn a_mapped_window_is_introduced_to_every_manager() {
    let mut s = state();
    assert!(s.notify_toplevel_mapped(10).is_empty());
    assert_eq!(s.bind_foreign_toplevel_manager(70).len(), 1);
    assert_eq!(s.bind_foreign_toplevel_manager(71)[0].window_id, 10);
    let new = s.notify_toplevel_mapped(10);
    assert_eq!(new.iter().map(|n| n.manager).collect::<Vec<_>>(), vec![70, 71]);
    assert_eq!(new[0].title, "Editor");
    assert_eq!(new[0].app_id, "org.editor");
    assert!(s.notify_toplevel_mapped(99).is_empty());
    let events = s.emit_new_toplevel(new[0].clone(), Some(700));
    assert_eq!(
        events,
        vec![
            ToplevelEvent::Toplevel { manager: 70, handle: 700 },
            ToplevelEvent::Title { handle: 700, title: "Editor".to_string() },
            ToplevelEvent::AppId { handle: 700, app_id: "org.editor".to_string() },
            ToplevelEvent::Done { handle: 700 },
        ]
    );
    assert!(s.emit_new_toplevel(new[1].clone(), None).is_empty());
    assert_eq!(s.foreign_toplevel_state.handles[&10], vec![700]);
}

fn with_handles() -> BlueState {
    let mut s = state();
    for handle in [700, 701] {
        let new = NewToplevel {
            manager: 70,
            window_id: 10,
            title: "Editor".to_string(),
            app_id: "org.editor".to_string(),
        };
        s.emit_new_toplevel(new, Some(handle));
    }
    s
}

#[test]
fn renaming_reaches_every_handle() {
    let s = with_handles();
    assert_eq!(
        s.notify_toplevel_title_appid(10, "New", "id"),
        vec![
            ToplevelEvent::Title { handle: 700, title: "New".to_string() },
            ToplevelEvent::AppId { handle: 700, app_id: "id".to_string() },
            ToplevelEvent::Done { handle: 700 },
            ToplevelEvent::Title { handle: 701, title: "New".to_string() },
            ToplevelEvent::AppId { handle: 701, app_id: "id".to_string() },
            ToplevelEvent::Done { handle: 701 },
        ]
    );
    assert!(s.notify_toplevel_title_appid(11, "New", "id").is_empty());
}

#[test]
fn unmapping_closes_every_handle_once() {
    let mut s = with_handles();
    assert_eq!(
        s.notify_toplevel_unmapped(10),
        vec![ToplevelEvent::Closed { handle: 700 }, ToplevelEvent::Closed { handle: 701 }]
    );
    assert!(s.notify_toplevel_unmapped(10).is_empty());
}

#[test]
fn handle_requests_reach_the_window() {
    let mut s = with_handles();
    let d = desktop();
    let data = |window_id| ToplevelHandleData { window_id };
    assert_eq!(
        s.handle_toplevel_request(&d, data(10), 700, HandleRequest::Activate),
        vec![HandleAction::Raise { window: 10 }, HandleAction::SetFocus { surface: 100 }]
    );
    assert_eq!(
        s.handle_toplevel_request(&d, data(12), 702, HandleRequest::Activate),
        vec![HandleAction::Raise { window: 12 }]
    );
    assert_eq!(
        s.handle_toplevel_request(&d, data(10), 700, HandleRequest::Close),
        vec![HandleAction::SendClose { window: 10 }]
    );
    assert_eq!(
        s.handle_toplevel_request(&d, data(11), 703, HandleRequest::Close),
        vec![HandleAction::CloseX11 { window: 11 }]
    );
    assert_eq!(s.handle_toplevel_request(&d, data(12), 702, HandleRequest::Close), vec![]);
    assert_eq!(s.handle_toplevel_request(&d, data(99), 704, HandleRequest::Close), vec![]);
    for request in [
        HandleRequest::SetMaximized,
        HandleRequest::UnsetMaximized,
        HandleRequest::SetMinimized,
        HandleRequest::UnsetMinimized,
        HandleRequest::SetRectangle,
        HandleRequest::Other,
    ] {
        assert_eq!(s.handle_toplevel_request(&d, data(10), 700, request), vec![]);
    }
    assert_eq!(s.foreign_toplevel_state.handles[&10], vec![700, 701]);
}

#[test]
fn a_destroyed_handle_hears_nothing_more() {
    let mut s = with_handles();
    let data = ToplevelHandleData { window_id: 10 };
    s.handle_toplevel_request(&desktop(), data, 700, HandleRequest::Destroy);
    assert_eq!(s.notify_toplevel_unmapped(10), vec![ToplevelEvent::Closed { handle: 701 }]);
    let mut s = with_handles();
    let empty = Desktop {
        windows: vec![],
        has_keyboard: false,
        keyboard_focus: None,
        first_output_geometry: None,
    };
    s.handle_toplevel_request(&empty, data, 700, HandleRequest::Destroy);
    assert_eq!(s.foreign_toplevel_state.handles[&10], vec![700, 701]);
}

#[test]
fn a_stopped_manager_is_finished() {
    let mut state = ForeignToplevelManagerState::new(4);
    assert_eq!(state.global_id(), 4);
    state.managers = vec![1, 2, 1];
    assert_eq!(state.stop(1), vec![ToplevelEvent::Finished { manager: 1 }]);
    assert_eq!(state.managers, vec![2]);
}

// Hotplug

#[test]
fn only_a_change_asks_for_a_rescan() {
    assert!(handle_udev_event(UdevEvent::Changed));
    assert!(!handle_udev_event(UdevEvent::Added));
    assert!(!handle_udev_event(UdevEvent::Removed));
}

#[test]
fn a_rescan_announces_what_came_and_went() {
    let names = |list: &[&str]| list.iter().map(|n| n.to_string()).collect::<Vec<_>>();
    let changed = |name: &str, connected| CompositorMessage::OutputChanged {
        name: name.to_string(),
        connected,
        width: 0,
        height: 0,
    };
    let mut s = BlueState::new(4, 300, 1, 2, 3);
    s.outputs.push(output(1, "A", Some(mode(1920, 1080))));
    s.outputs.push(output(2, "B", None));
    let rescan = rescan_outputs(&mut s, &names(&["A", "B"]), &names(&["C", "B", "D"]));
    assert_eq!(
        rescan.messages,
        vec![changed("C", true), changed("D", true), changed("A", false)]
    );
    assert_eq!(rescan.unmapped, vec![1]);
    assert_eq!(rescan.to_set_up, names(&["C", "D"]));
    assert_eq!(s.outputs.iter().map(|o| o.id).collect::<Vec<_>>(), vec![2]);
}

#[test]
fn a_rescan_of_a_settled_desktop_changes_nothing() {
    let names = |list: &[&str]| list.iter().map(|n| n.to_string()).collect::<Vec<_>>();
    let mut s = state();
    let rescan = rescan_outputs(&mut s, &names(&["eDP-1", "DP-1"]), &names(&["DP-1", "eDP-1"]));
    assert!(rescan.messages.is_empty());
    assert!(rescan.unmapped.is_empty());
    assert!(rescan.to_set_up.is_empty());
    assert_eq!(s.outputs.iter().map(|o| o.id).collect::<Vec<_>>(), vec![1, 2]);
    let mut empty = BlueState::new(4, 300, 1, 2, 3);
    assert!(rescan_outputs(&mut empty, &vec![], &vec![]).messages.is_empty());
    let all = rescan_outputs(&mut s, &names(&["eDP-1", "DP-1"]), &vec![]);
    assert_eq!(all.messages.len(), 2);
    assert_eq!(all.unmapped, vec![1, 2]);
    assert!(s.outputs.is_empty());
}

#[test]
fn connectors_are_read_line_by_line() {
    assert_eq!(
        list_connected_connectors("eDP-1\n\nHDMI-A-1\r\nDP-2"),
        vec!["eDP-1".to_string(), "HDMI-A-1".to_string(), "DP-2".to_string()]
    );
    assert!(list_connected_connectors("").is_empty());
}

// Idle inhibition

#[test]
fn visible_inhibitors_keep_the_screen_on() {
    let mut s = state();
    init(&mut s);
    assert!(!s.is_idle_inhibited());
    s.inhibit(5, false);
    assert!(!s.is_idle_inhibited());
    s.inhibit(6, true);
    assert!(s.is_idle_inhibited());
    s.set_surface_status(6, false, true);
    assert!(!s.is_idle_inhibited());
    s.set_surface_status(5, true, true);
    assert!(s.is_idle_inhibited());
    s.uninhibit(5);
    assert!(!s.is_idle_inhibited());
    assert_eq!(s.idle_inhibiting_surfaces.len(), 1);
    s.uninhibit(6);
    assert!(s.idle_inhibiting_surfaces.is_empty());
}

// Input methods

#[test]
fn the_parent_is_a_window_or_a_layer() {
    let d = desktop();
    let layers = vec![
        MappedLayer { surface: 200, geometry: None, output_location: Point { x: 1, y: 1 } },
        MappedLayer {
            surface: 200,
            geometry: Some(rect(10, 20, 30, 40)),
            output_location: Point { x: 1000, y: 500 },
        },
        MappedLayer {
            surface: 100,
            geometry: Some(rect(1, 1, 1, 1)),
            output_location: Point { x: 0, y: 0 },
        },
    ];
    assert_eq!(parent_geometry(&d, &layers, Some(100)), rect(5, 6, 70, 80));
    assert_eq!(parent_geometry(&d, &layers, Some(101)), rect(0, 0, 0, 0));
    assert_eq!(parent_geometry(&d, &layers, Some(200)), rect(1010, 520, 30, 40));
    assert_eq!(parent_geometry(&d, &layers, Some(201)), rect(0, 0, 0, 0));
    assert_eq!(parent_geometry(&d, &layers, None), rect(0, 0, 0, 0));
}

#[test]
fn candidate_windows_open_below_the_text() {
    let mut s = state();
    let placement = popup_created(&mut s, 44, Some(rect(100, 200, 640, 480)), rect(7, 8, 0, 16));
    assert_eq!(placement.location, Point { x: 7, y: 24 });
    assert_eq!(
        placement.message,
        CompositorMessage::ImeCandidateWindow { visible: true, x: 107, y: 224, width: 1, height: 16 }
    );
    assert_eq!(s.input_method_popups.len(), 1);
    let moved = popup_repositioned(None, rect(1, 2, 3, 4));
    assert_eq!(moved.location, Point { x: 1, y: 6 });
    assert_eq!(
        moved.message,
        CompositorMessage::ImeCandidateWindow { visible: true, x: 1, y: 6, width: 3, height: 4 }
    );
    assert_eq!(
        popup_dismissed(&mut s, 44),
        CompositorMessage::ImeCandidateWindow { visible: false, x: 0, y: 0, width: 0, height: 0 }
    );
    assert!(s.input_method_popups.is_empty());
}

#[test]
fn only_live_candidate_windows_are_drawn() {
    let popup = |popup, alive, parent| PopupOnScreen {
        popup,
        alive,
        parent,
        location: Point { x: 7, y: 24 },
    };
    assert_eq!(
        render_elements(&vec![
            popup(1, true, Some(rect(100, 200, 640, 480))),
            popup(2, false, None),
            popup(3, true, None),
        ]),
        vec![
            PopupElement { popup: 1, location: Point { x: 107, y: 224 } },
            PopupElement { popup: 3, location: Point { x: 7, y: 24 } },
        ]
    );
}

// Buffers of GPUs

#[test]
fn format_codes_are_those_of_drm() {
    assert_eq!(XRGB2101010, drm_fourcc::DrmFourcc::Xrgb2101010 as u32);
    assert_eq!(ARGB2101010, drm_fourcc::DrmFourcc::Argb2101010 as u32);
    assert_eq!(XRGB8888, drm_fourcc::DrmFourcc::Xrgb8888 as u32);
    assert_eq!(ARGB8888, drm_fourcc::DrmFourcc::Argb8888 as u32);
    assert_eq!(LINEAR, u64::from(drm_fourcc::DrmModifier::Linear));
    assert_eq!(
        scanout_candidate_formats().iter().map(|f| f.code).collect::<Vec<_>>(),
        vec![XRGB2101010, ARGB2101010, XRGB8888, ARGB8888]
    );
}

#[test]
fn scanout_formats_are_preferred_where_they_can_be_imported() {
    let linear = |code| Format { code, modifier: LINEAR };
    let formats = vec![
        linear(ARGB8888),
        Format { code: XRGB2101010, modifier: 5 },
        linear(XRGB8888),
    ];
    let feedback = init_dmabuf(formats.clone(), Some(226));
    assert_eq!(feedback.device, 226);
    assert_eq!(feedback.formats, formats);
    let tranche = feedback.preference.as_ref().unwrap();
    assert_eq!(tranche.device, 226);
    assert!(tranche.scanout);
    assert_eq!(tranche.formats, vec![linear(XRGB8888), linear(ARGB8888)]);
    assert_eq!(dmabuf_global(feedback, true), DmabufGlobal::WithFeedback);
    let feedback = init_dmabuf(vec![], None);
    assert_eq!(feedback.device, 0);
    assert_eq!(feedback.preference, None);
    assert_eq!(dmabuf_global(feedback, false), DmabufGlobal::Plain { formats: vec![] });
}
