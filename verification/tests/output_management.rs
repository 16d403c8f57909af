use blue_compositor::geometry::{Point, Size};
use blue_compositor::output::{Output, OutputMode, OutputTransform, Scale};
use blue_compositor::protocols::output_management::{
    protocol_transform, requested_transform, ConfigAction, ConfigHeadData, ConfigHeadRequest,
    ConfigRequest, CreatedHead, DoneEvent, HeadEvent, MissingHead, ModeData, OutputManagementState,
};
use blue_compositor::state::BlueState;
use wayland_server::protocol::wl_output::Transform as WlTransform;
use wayland_server::WEnum;

fn mode(w: i32, h: i32, refresh: i32) -> OutputMode {
    OutputMode { size: Size { w, h }, refresh }
}

fn output(id: u64, name: &str) -> Output {
    Output {
        id,
        name: name.to_string(),
        make: "Make".to_string(),
        model: "Model".to_string(),
        physical_size: Size { w: 300, h: 200 },
        modes: vec![mode(1920, 1080, 60_000), mode(1280, 720, 50_000)],
        current_mode: Some(mode(1920, 1080, 60_000)),
        preferred_mode: Some(mode(1920, 1080, 60_000)),
        location: Point { x: 10, y: 20 },
        transform: OutputTransform::Flipped90,
        scale: Scale::Integer { factor: 2 },
    }
}

fn state() -> BlueState {
    let mut s = BlueState::new(4, 300, 1, 2, 3);
    s.outputs.push(output(1, "eDP-1"));
    s.outputs.push(output(2, "DP-1"));
    s
}

fn head(s: &mut BlueState, config: u64, name: &str, request: ConfigHeadRequest) {
    let data = ConfigHeadData { output_name: name.to_string(), config_id: config };
    s.handle_configuration_head_request(&data, request);
}

fn apply(s: &mut BlueState, config: u64) -> Vec<ConfigAction> {
    s.handle_configuration_request(config, ConfigRequest::Apply).actions
}

#[test]
fn transforms_survive_the_protocol() {
    let pairs = [
        (OutputTransform::Normal, WlTransform::Normal),
        (OutputTransform::Rotated90, WlTransform::_90),
        (OutputTransform::Rotated180, WlTransform::_180),
        (OutputTransform::Rotated270, WlTransform::_270),
        (OutputTransform::Flipped, WlTransform::Flipped),
        (OutputTransform::Flipped90, WlTransform::Flipped90),
        (OutputTransform::Flipped180, WlTransform::Flipped180),
        (OutputTransform::Flipped270, WlTransform::Flipped270),
    ];
    for (ours, wl) in pairs {
        assert_eq!(protocol_transform(ours), wl);
        assert_eq!(requested_transform(WEnum::Value(wl)), ours);
    }
    assert_eq!(requested_transform(WEnum::Unknown(99)), OutputTransform::Normal);
}

#[test]
fn an_output_is_described_in_full() {
    let mut s = state();
    assert_eq!(
        s.mode_objects(0),
        vec![
            ModeData { width: 1920, height: 1080, refresh_mhz: 60_000 },
            ModeData { width: 1280, height: 720, refresh_mhz: 50_000 },
        ]
    );
    let events = s.advertise_head(70, 0, Some(700), &vec![Some(71), Some(72)]);
    assert_eq!(
        events,
        vec![
            HeadEvent::Head { manager: 70, head: 700 },
            HeadEvent::Name { head: 700, name: "eDP-1".to_string() },
            HeadEvent::Description { head: 700, description: "Make Model".to_string() },
            HeadEvent::PhysicalSize { head: 700, size: Size { w: 300, h: 200 } },
            HeadEvent::Make { head: 700, make: "Make".to_string() },
            HeadEvent::Model { head: 700, model: "Model".to_string() },
            HeadEvent::ModeSize { mode: 71, size: Size { w: 1920, h: 1080 } },
            HeadEvent::ModeRefresh { mode: 71, refresh: 60_000 },
            HeadEvent::ModePreferred { mode: 71 },
            HeadEvent::Mode { head: 700, mode: 71 },
            HeadEvent::CurrentMode { head: 700, mode: 71 },
            HeadEvent::ModeSize { mode: 72, size: Size { w: 1280, h: 720 } },
            HeadEvent::ModeRefresh { mode: 72, refresh: 50_000 },
            HeadEvent::Mode { head: 700, mode: 72 },
            HeadEvent::Position { head: 700, location: Point { x: 10, y: 20 } },
            HeadEvent::Transform { head: 700, transform: WlTransform::Flipped90 },
            HeadEvent::Scale { head: 700, scale: Scale::Integer { factor: 2 } },
            HeadEvent::Enabled { head: 700 },
        ]
    );
    assert_eq!(s.output_management_state.output_name_for_head(700), "eDP-1");
    assert_eq!(s.output_management_state.output_name_for_head(701), "");
    let bare = s.advertise_head(70, 1, Some(701), &vec![None, None]);
    assert_eq!(bare.len(), 10);
    assert!(s.advertise_head(70, 1, None, &vec![None, None]).is_empty());
    s.advertise_head(73, 0, Some(702), &vec![None, None]);
    assert_eq!(s.output_management_state.output_name_for_head(702), "eDP-1");
    assert_eq!(s.output_management_state.heads.len(), 2);
}

fn refused(missing: &MissingHead) -> CreatedHead {
    CreatedHead {
        manager: missing.manager,
        place: missing.place,
        head: None,
        objects: vec![None, None],
    }
}

fn bare(missing: &MissingHead, head: u64) -> CreatedHead {
    CreatedHead { head: Some(head), ..refused(missing) }
}

#[test]
fn the_preferred_mode_is_marked_apart_from_the_current_one() {
    let mut s = state();
    s.outputs[0].preferred_mode = Some(mode(1280, 720, 50_000));
    let modes = |events: Vec<HeadEvent>| -> Vec<HeadEvent> {
        events
            .into_iter()
            .filter(|e| {
                matches!(e, HeadEvent::ModePreferred { .. } | HeadEvent::CurrentMode { .. })
            })
            .collect()
    };
    assert_eq!(
        modes(s.advertise_head(70, 0, Some(700), &vec![Some(71), Some(72)])),
        vec![
            HeadEvent::CurrentMode { head: 700, mode: 71 },
            HeadEvent::ModePreferred { mode: 72 },
        ]
    );
    s.outputs[0].preferred_mode = None;
    assert_eq!(
        modes(s.advertise_head(73, 0, Some(703), &vec![Some(74), Some(75)])),
        vec![HeadEvent::CurrentMode { head: 703, mode: 74 }]
    );
}

#[test]
fn managers_follow_the_outputs() {
    let mut s = state();
    for (manager, first) in [(70, 700), (71, 710)] {
        s.advertise_head(manager, 0, Some(first), &vec![None, None]);
        s.advertise_head(manager, 1, Some(first + 1), &vec![None, None]);
        s.finish_output_manager_bind(manager);
    }
    assert!(s.missing_heads().is_empty());
    s.outputs.remove(0);
    s.outputs.push(output(3, "HDMI-A-1"));
    let missing = s.missing_heads();
    assert_eq!(
        missing,
        vec![MissingHead { manager: 70, place: 1 }, MissingHead { manager: 71, place: 1 }]
    );
    let created = vec![
        CreatedHead {
            manager: 70,
            place: 1,
            head: Some(702),
            objects: vec![Some(80), Some(81)],
        },
        bare(&missing[1], 712),
    ];
    let events = s.notify_output_topology_changed(&created);
    assert_eq!(events[0], HeadEvent::Finished { head: 700 });
    assert_eq!(events[1], HeadEvent::Finished { head: 710 });
    assert_eq!(events[2], HeadEvent::Head { manager: 70, head: 702 });
    assert_eq!(events[3], HeadEvent::Name { head: 702, name: "HDMI-A-1".to_string() });
    assert!(events.contains(&HeadEvent::ModePreferred { mode: 80 }));
    assert!(events.contains(&HeadEvent::Head { manager: 71, head: 712 }));
    let done = |manager| HeadEvent::Done { event: DoneEvent { manager, serial: 3 } };
    assert_eq!(events[events.len() - 2], done(70));
    assert_eq!(events[events.len() - 1], done(71));
    let entries: Vec<&str> =
        s.output_management_state.heads.iter().map(|e| e.name.as_str()).collect();
    assert_eq!(entries, vec!["DP-1", "HDMI-A-1"]);
    let names = |head| s.output_management_state.output_name_for_head(head);
    assert_eq!(names(700), "");
    assert_eq!(names(701), "DP-1");
    assert_eq!(names(702), "HDMI-A-1");
    assert_eq!(names(712), "HDMI-A-1");
    assert!(s.missing_heads().is_empty());
    assert_eq!(s.notify_output_topology_changed(&vec![]).len(), 2);
}

#[test]
fn serials_rise_with_every_batch() {
    let mut s = state();
    assert_eq!(s.finish_output_manager_bind(70), DoneEvent { manager: 70, serial: 1 });
    assert_eq!(s.finish_output_manager_bind(71), DoneEvent { manager: 71, serial: 2 });
    let missing = s.missing_heads();
    assert_eq!(missing.len(), 4);
    let created = missing.iter().map(|m| refused(m)).collect();
    assert_eq!(
        s.notify_output_topology_changed(&created),
        vec![
            HeadEvent::Done { event: DoneEvent { manager: 70, serial: 3 } },
            HeadEvent::Done { event: DoneEvent { manager: 71, serial: 3 } },
        ]
    );
    assert_eq!(s.output_management_state.serial, 3);
    let fresh = OutputManagementState::new(9);
    assert_eq!(fresh.global_id(), 9);
    assert_eq!(fresh.serial, 0);
}

#[test]
fn a_configuration_is_applied_in_order_and_once() {
    let mut s = state();
    head(&mut s, 5, "DP-1", ConfigHeadRequest::SetPosition { x: 1920, y: 0 });
    head(&mut s, 5, "nowhere", ConfigHeadRequest::SetPosition { x: 1, y: 1 });
    head(
        &mut s,
        5,
        "DP-1",
        ConfigHeadRequest::SetCustomMode { width: 800, height: 600, refresh: 75_000 },
    );
    head(&mut s, 5, "DP-1", ConfigHeadRequest::SetScale { fixed: 384 });
    head(
        &mut s,
        5,
        "eDP-1",
        ConfigHeadRequest::SetTransform { transform: WEnum::Value(WlTransform::_180) },
    );
    head(&mut s, 5, "eDP-1", ConfigHeadRequest::SetAdaptiveSync);
    head(&mut s, 5, "eDP-1", ConfigHeadRequest::SetMode { mode: None });
    assert_eq!(s.outputs[1].location, Point { x: 10, y: 20 });
    assert_eq!(
        apply(&mut s, 5),
        vec![
            ConfigAction::ChangeLocation { output: 2, location: Point { x: 1920, y: 0 } },
            ConfigAction::MapOutput { output: 2, location: Point { x: 1920, y: 0 } },
            ConfigAction::ChangeMode { output: 2, mode: mode(800, 600, 75_000) },
            ConfigAction::Modeset {
                output_name: "DP-1".to_string(),
                w: 800,
                h: 600,
                refresh_mhz: 75_000,
            },
            ConfigAction::ChangeScale { output: 2, scale: Scale::Fractional { fixed: 384 } },
            ConfigAction::ChangeTransform { output: 1, transform: OutputTransform::Rotated180 },
            ConfigAction::Succeeded,
        ]
    );
    assert_eq!(s.outputs[1].location, Point { x: 1920, y: 0 });
    assert_eq!(s.outputs[1].current_mode, Some(mode(800, 600, 75_000)));
    assert_eq!(s.outputs[1].modes.len(), 3);
    assert_eq!(s.outputs[1].scale, Scale::Fractional { fixed: 384 });
    assert_eq!(s.outputs[0].transform, OutputTransform::Rotated180);
    assert_eq!(s.outputs[0].current_mode, Some(mode(1920, 1080, 60_000)));
    assert_eq!(apply(&mut s, 5), vec![ConfigAction::Succeeded]);
}

#[test]
fn a_picked_mode_is_not_listed_twice() {
    let mut s = state();
    let picked = s.mode_objects(0)[1];
    head(&mut s, 6, "eDP-1", ConfigHeadRequest::SetMode { mode: Some(picked) });
    apply(&mut s, 6);
    assert_eq!(s.outputs[0].current_mode, Some(mode(1280, 720, 50_000)));
    assert_eq!(s.outputs[0].modes.len(), 2);
}

#[test]
fn heads_are_enabled_and_disabled_by_name() {
    let mut s = state();
    s.advertise_head(70, 1, Some(701), &vec![None, None]);
    let reply = s.handle_configuration_request(8, ConfigRequest::EnableHead { head: 701 });
    assert_eq!(
        reply.head,
        Some(ConfigHeadData { output_name: "DP-1".to_string(), config_id: 8 })
    );
    assert!(reply.actions.is_empty());
    let reply = s.handle_configuration_request(8, ConfigRequest::DisableHead { head: 701 });
    assert_eq!(reply.head, None);
    assert_eq!(
        apply(&mut s, 8),
        vec![ConfigAction::UnmapOutput { output: 2 }, ConfigAction::Succeeded]
    );
}

#[test]
fn a_destroyed_configuration_changes_nothing() {
    let mut s = state();
    head(&mut s, 9, "DP-1", ConfigHeadRequest::SetPosition { x: 1, y: 1 });
    head(&mut s, 10, "DP-1", ConfigHeadRequest::SetPosition { x: 2, y: 2 });
    s.handle_configuration_request(9, ConfigRequest::Other);
    s.handle_configuration_request(9, ConfigRequest::Destroy);
    assert_eq!(apply(&mut s, 9), vec![ConfigAction::Succeeded]);
    assert_eq!(s.outputs[1].location, Point { x: 10, y: 20 });
    apply(&mut s, 10);
    assert_eq!(s.outputs[1].location, Point { x: 2, y: 2 });
}
