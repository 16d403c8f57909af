use blue_compositor::geometry::{Point, Rectangle, Size};
use blue_compositor::output::{OutputMode, OutputTransform, Scale};
use blue_compositor::protocols::hotplug::rescan_outputs;
use blue_compositor::render::frame::{
    layer_shell_elements, FrameStep, LayerElement, LayerOnOutput, WindowFrameStep,
};
use blue_compositor::render::modeset::{
    apply_hardware_modeset, matching_mode, modeset_target, ModesetTarget,
};
use blue_compositor::render::multigpu::{track_surface_origin, CommittedBuffer};
use blue_compositor::render::scan::{
    connected_names, select_mode, Connector, DrmMode, DrmScan,
};
use blue_compositor::render::udev::{
    init_udev, render_all_udev_outputs, render_udev, select_primary_gpu, BackendData, RenderJob,
    RendererNeed,
};
use blue_compositor::render::winit::{
    handle_winit_event, init_winit, render_winit, WinitEvent, WinitReply,
};
use blue_compositor::state::BlueState;
use std::collections::HashMap;

fn state() -> BlueState {
    BlueState::new(4, 300, 1, 2, 3)
}

fn drm(width: u16, height: u16, vrefresh: u32, preferred: bool) -> DrmMode {
    DrmMode { width, height, vrefresh, preferred }
}

fn connector(handle: u32, modes: Vec<DrmMode>, encoder_crtcs: Vec<u32>) -> Connector {
    Connector {
        handle,
        connected: true,
        interface: 11,
        physical_size: Some((520, 320)),
        modes,
        encoder_crtcs,
    }
}

#[test]
fn the_fastest_preferred_mode_is_selected() {
    let modes = vec![
        drm(800, 600, 240, false),
        drm(1920, 1080, 60, true),
        drm(2560, 1440, 144, true),
        drm(1920, 1080, 144, true),
        drm(640, 480, 75, true),
    ];
    assert_eq!(select_mode(&modes), Some(3));
    assert_eq!(select_mode(&modes[..1].to_vec()), Some(0));
    let plain = vec![drm(1, 1, 30, false), drm(2, 2, 90, false)];
    assert_eq!(select_mode(&plain), Some(0));
    assert_eq!(select_mode(&vec![]), None);
}

#[test]
fn a_connector_gets_an_output() {
    let modes = vec![
        drm(1280, 720, 50, false),
        drm(1920, 1080, 60, true),
        drm(1920, 1080, 60, true),
        drm(1920, 1080, 60, false),
    ];
    let mut scan = DrmScan::new(vec![connector(77, modes, vec![5, 6])], vec![4, 5, 6], &vec![]);
    assert_eq!(scan.next_connector(), Some(0));
    let plan = scan.next_output(42).unwrap();
    assert_eq!(scan.next_connector(), None);
    assert!(scan.next_output(43).is_none());
    assert_eq!(plan.crtc, 5);
    assert_eq!(plan.connector, 77);
    assert_eq!(plan.mode, drm(1920, 1080, 60, true));
    assert_eq!(plan.mode_place, 2);
    let output = plan.output;
    assert_eq!(output.id, 42);
    assert_eq!(output.name, "11-77");
    assert_eq!(output.make, "Unknown");
    assert_eq!(output.model, "11-77");
    assert_eq!(output.physical_size, Size { w: 520, h: 320 });
    let full = OutputMode { size: Size { w: 1920, h: 1080 }, refresh: 60_000 };
    let small = OutputMode { size: Size { w: 1280, h: 720 }, refresh: 50_000 };
    assert_eq!(output.modes, vec![small, full]);
    assert_eq!(output.current_mode, Some(full));
    assert_eq!(output.preferred_mode, Some(full));
    assert_eq!(output.location, Point { x: 0, y: 0 });
    assert_eq!(output.transform, OutputTransform::Normal);
    assert_eq!(output.scale, Scale::Integer { factor: 1 });
}

#[test]
fn some_connectors_get_no_output() {
    let modes = vec![drm(800, 600, 60, false)];
    let off = Connector { connected: false, ..connector(1, modes.clone(), vec![]) };
    let no_mode = connector(2, vec![], vec![]);
    let no_crtc = connector(3, modes.clone(), vec![5]);
    let unmeasured = Connector { physical_size: None, ..connector(4, modes.clone(), vec![]) };
    let mut scan =
        DrmScan::new(vec![off, no_mode, no_crtc, unmeasured], vec![5, 4], &vec![]);
    scan.used_crtcs.push(5);
    assert_eq!(scan.next_connector(), Some(3));
    let plan = scan.next_output(1).unwrap();
    assert_eq!(plan.connector, 4);
    assert_eq!(plan.crtc, 4);
    assert_eq!(plan.output.physical_size, Size { w: 0, h: 0 });
    assert_eq!(scan.next, 4);
    let mut full = DrmScan::new(vec![connector(5, modes, vec![])], vec![5], &vec![]);
    full.used_crtcs.push(5);
    assert!(full.next_output(1).is_none());
}

fn scanned() -> BlueState {
    let mut s = state();
    assert!(init_udev(&mut s, 226, true));
    let connectors = [70, 71, 72]
        .iter()
        .map(|handle| connector(*handle, vec![drm(1000, 600, 60, true)], vec![]))
        .collect();
    let mut scan = DrmScan::new(connectors, vec![4, 5], &s.outputs);
    for (id, created) in [(1, true), (2, false), (3, true)] {
        let plan = scan.next_output(id).unwrap();
        scan.settle(&mut s, 226, plan, created);
    }
    assert!(scan.next_output(4).is_none());
    assert_eq!(scan.used_crtcs, vec![4, 5]);
    assert_eq!(scan.x_off, 3000);
    s
}

#[test]
fn scanned_outputs_stand_side_by_side() {
    let s = scanned();
    let places: Vec<(u64, i32)> = s.outputs.iter().map(|o| (o.id, o.location.x)).collect();
    assert_eq!(places, vec![(1, 0), (2, 1000), (3, 2000)]);
    let first = s.vblank_surface(226, 4).unwrap();
    assert_eq!((first.output, first.output_name.as_str(), first.connector), (1, "11-70", 70));
    assert_eq!(s.vblank_surface(226, 5).unwrap().output, 3);
    assert!(s.vblank_surface(226, 6).is_none());
    assert!(s.vblank_surface(227, 4).is_none());
}

#[test]
fn an_output_without_its_gpu_is_not_lit() {
    let mut s = state();
    assert!(!init_udev(&mut s, 226, false));
    let only = connector(1, vec![drm(10, 10, 60, true)], vec![]);
    let mut scan = DrmScan::new(vec![only], vec![4], &s.outputs);
    let plan = scan.next_output(1).unwrap();
    scan.settle(&mut s, 226, plan, true);
    assert!(scan.used_crtcs.is_empty());
    assert_eq!(s.outputs.len(), 1);
    assert!(render_all_udev_outputs(&s).is_empty());
}

#[test]
fn a_renderer_is_created_once() {
    let mut s = scanned();
    assert_eq!(s.renderer_need(226), RendererNeed::Create);
    assert_eq!(s.renderer_need(227), RendererNeed::Unavailable);
    assert!(!s.register_dmabuf(226));
    assert_eq!(render_udev(&s, 226, 4), None);
    s.renderer_created(226);
    assert_eq!(s.renderer_need(226), RendererNeed::Ready);
    assert!(s.register_dmabuf(226));
    assert!(!s.register_dmabuf(226));
    assert_eq!(
        render_udev(&s, 226, 4),
        Some(RenderJob {
            output: 1,
            output_name: "11-70".to_string(),
            size: Size { w: 1000, h: 600 },
        })
    );
    s.outputs[0].current_mode = None;
    assert_eq!(render_udev(&s, 226, 4).unwrap().size, Size { w: 0, h: 0 });
    assert_eq!(render_udev(&s, 226, 9), None);
    assert_eq!(render_udev(&state(), 226, 4), None);
}

#[test]
fn every_surface_is_drawn() {
    let mut s = scanned();
    assert!(s.gpu_added(300, true));
    let only = connector(1, vec![drm(10, 10, 60, true)], vec![]);
    let mut scan = DrmScan::new(vec![only], vec![4], &s.outputs);
    let plan = scan.next_output(9).unwrap();
    assert_eq!(plan.output.location, Point { x: 0, y: 0 });
    scan.settle(&mut s, 300, plan, true);
    let mut targets = render_all_udev_outputs(&s);
    targets.sort();
    assert_eq!(targets, vec![(226, 4), (226, 5), (300, 4)]);
    assert!(render_all_udev_outputs(&state()).is_empty());
}

#[test]
fn a_removed_gpu_takes_its_outputs_along() {
    let mut s = scanned();
    let mut unmapped = s.gpu_removed(226);
    unmapped.sort();
    assert_eq!(unmapped, vec![1, 3]);
    assert_eq!(s.outputs.iter().map(|o| o.id).collect::<Vec<_>>(), vec![2]);
    assert!(s.vblank_surface(226, 4).is_none());
    assert!(s.gpu_removed(226).is_empty());
    assert_eq!(s.outputs.len(), 1);
}

#[test]
fn monitors_can_be_plugged_in_later() {
    let mut s = scanned();
    let modes = || vec![drm(800, 600, 60, true)];
    let connectors = || {
        vec![
            Connector { connected: false, ..connector(70, modes(), vec![]) },
            connector(71, modes(), vec![]),
            connector(72, modes(), vec![]),
            connector(73, modes(), vec![]),
        ]
    };
    let connected = connected_names(&connectors());
    assert_eq!(connected, vec!["11-71", "11-72", "11-73"]);
    let current = s.outputs.iter().map(|o| o.name.clone()).collect();
    let rescan = rescan_outputs(&mut s, &current, &connected);
    assert_eq!(rescan.unmapped, vec![1]);
    assert_eq!(rescan.to_set_up, vec!["11-73"]);
    assert!(s.vblank_surface(226, 4).is_none());
    assert_eq!(s.vblank_surface(226, 5).unwrap().output, 3);
    let mut scan =
        DrmScan::for_new_monitors(&s, 226, connectors(), vec![4, 5], &rescan.to_set_up);
    assert_eq!(scan.used_crtcs, vec![5]);
    let plan = scan.next_output(9).unwrap();
    assert_eq!((plan.connector, plan.crtc), (73, 4));
    assert_eq!(plan.output.location, Point { x: 3000, y: 0 });
    scan.settle(&mut s, 226, plan, true);
    assert_eq!(scan.x_off, 3800);
    assert!(scan.next_output(10).is_none());
    let names: Vec<&str> = s.outputs.iter().map(|o| o.name.as_str()).collect();
    assert_eq!(names, connected);
    let again = rescan_outputs(&mut s, &connected, &connected);
    assert!(again.messages.is_empty() && again.unmapped.is_empty());
    assert!(again.to_set_up.is_empty());
    assert_eq!(s.vblank_surface(226, 4).unwrap().output, 9);
    let other = DrmScan::for_new_monitors(&state(), 226, connectors(), vec![4], &connected);
    assert!(other.used_crtcs.is_empty());
    assert_eq!((other.connectors.len(), other.x_off), (3, 0));
}

#[test]
fn hotplugged_gpus_need_to_open() {
    let mut s = scanned();
    assert!(!s.gpu_added(300, false));
    assert!(s.gpu_added(226, false));
    assert!(s.vblank_surface(226, 4).is_some());
    assert!(s.gpu_added(226, true));
    assert!(s.vblank_surface(226, 4).is_none());
    let mut nested = state();
    init_winit(&mut nested, 1, Size { w: 10, h: 10 });
    assert!(!nested.gpu_added(300, true));
}

#[test]
fn the_primary_gpu_comes_first() {
    let all = vec!["/dev/dri/card1".to_string(), "/dev/dri/card0".to_string()];
    assert_eq!(
        select_primary_gpu(Some("/dev/dri/card0".to_string()), all.clone()),
        Some("/dev/dri/card0".to_string())
    );
    assert_eq!(select_primary_gpu(None, all), Some("/dev/dri/card1".to_string()));
    assert_eq!(select_primary_gpu(None, vec![]), None);
}

#[test]
fn modes_are_set_on_the_surface_of_the_output() {
    let s = scanned();
    assert_eq!(
        modeset_target(&s, "11-72"),
        ModesetTarget::Surface { node: 226, crtc: 5, connector: 72 }
    );
    assert_eq!(modeset_target(&s, "11-71"), ModesetTarget::Missing);
    let mut nested = state();
    init_winit(&mut nested, 1, Size { w: 10, h: 10 });
    assert_eq!(modeset_target(&nested, "11-72"), ModesetTarget::NotNeeded);
}

#[test]
fn only_reported_modes_can_be_set() {
    let modes = vec![drm(800, 600, 60, false), drm(800, 600, 75, false), drm(800, 600, 75, true)];
    assert_eq!(matching_mode(&modes, 800, 600, 75_000), Some(1));
    assert_eq!(matching_mode(&modes, 800, 600, 75_001), None);
    assert_eq!(matching_mode(&modes, 801, 600, 75_000), None);
    assert_eq!(matching_mode(&modes, -800, 600, 75_000), None);
    let target = ModesetTarget::Surface { node: 1, crtc: 2, connector: 3 };
    let known = Some(modes);
    let set = |target, modes: &Option<Vec<DrmMode>>, refresh, surface, buffers| {
        apply_hardware_modeset(target, modes, 800, 600, refresh, surface, buffers)
    };
    assert!(set(target, &known, 60_000, true, true));
    assert!(!set(target, &known, 61_000, true, true));
    assert!(!set(target, &known, 60_000, false, false));
    assert!(!set(target, &known, 60_000, true, false));
    assert!(!set(target, &None, 60_000, true, true));
    assert!(!set(ModesetTarget::Missing, &known, 60_000, true, true));
    assert!(set(ModesetTarget::NotNeeded, &None, 60_000, false, false));
}

#[test]
fn the_window_is_the_nested_output() {
    let mut s = state();
    assert_eq!(render_winit(&s), None);
    init_winit(&mut s, 5, Size { w: 1280, h: 800 });
    assert!(s.dmabuf_registered);
    assert_eq!(render_winit(&s), Some(5));
    assert!(matches!(s.backend_data, BackendData::Winit { output: 5 }));
    let first = OutputMode { size: Size { w: 1280, h: 800 }, refresh: 60_000 };
    assert_eq!(s.outputs[0].name, "winit");
    assert_eq!(s.outputs[0].make, "Blue");
    assert_eq!(s.outputs[0].model, "Winit");
    assert_eq!(s.outputs[0].modes, vec![first]);
    assert_eq!(s.outputs[0].preferred_mode, Some(first));
    let mode = OutputMode { size: Size { w: 640, h: 480 }, refresh: 60_000 };
    assert_eq!(
        handle_winit_event(&mut s, WinitEvent::Resized { size: Size { w: 640, h: 480 } }),
        WinitReply::ChangeMode { output: 5, mode }
    );
    assert_eq!(s.outputs[0].current_mode, Some(mode));
    assert_eq!(s.outputs[0].modes, vec![first, mode]);
    assert_eq!(handle_winit_event(&mut s, WinitEvent::Input), WinitReply::HandleInput);
    assert_eq!(handle_winit_event(&mut s, WinitEvent::Redraw), WinitReply::Render { output: 5 });
    assert_eq!(handle_winit_event(&mut s, WinitEvent::Focus), WinitReply::Nothing);
    assert!(!s.should_exit);
    assert_eq!(handle_winit_event(&mut s, WinitEvent::CloseRequested), WinitReply::Nothing);
    assert!(s.should_exit);
    handle_winit_event(&mut s, WinitEvent::Redraw);
    assert!(s.should_exit);
    let mut bare = state();
    assert_eq!(
        handle_winit_event(&mut bare, WinitEvent::Resized { size: Size { w: 1, h: 1 } }),
        WinitReply::Nothing
    );
    assert_eq!(handle_winit_event(&mut bare, WinitEvent::Redraw), WinitReply::Nothing);
}

#[test]
fn surfaces_remember_the_gpu_of_their_buffer() {
    let mut origins = HashMap::new();
    track_surface_origin(&mut origins, 1, CommittedBuffer::New { node: Some(226) });
    track_surface_origin(&mut origins, 2, CommittedBuffer::New { node: None });
    track_surface_origin(&mut origins, 1, CommittedBuffer::Unchanged);
    assert_eq!(origins, HashMap::from([(1, 226)]));
    track_surface_origin(&mut origins, 1, CommittedBuffer::New { node: Some(227) });
    track_surface_origin(&mut origins, 1, CommittedBuffer::New { node: None });
    assert_eq!(origins, HashMap::from([(1, 227)]));
}

#[test]
fn a_frame_takes_its_course() {
    let mut step = FrameStep::AcquireBuffer;
    let mut seen = vec![];
    while step != FrameStep::Finished {
        seen.push(step);
        step = step.next(true);
    }
    assert_eq!(
        seen,
        vec![
            FrameStep::AcquireBuffer,
            FrameStep::BindTarget,
            FrameStep::Draw,
            FrameStep::ServeCaptures,
            FrameStep::QueueBuffer,
        ]
    );
    for step in [FrameStep::AcquireBuffer, FrameStep::BindTarget, FrameStep::Draw] {
        assert_eq!(step.next(false), FrameStep::Finished);
    }
    assert_eq!(FrameStep::ServeCaptures.next(false), FrameStep::QueueBuffer);
    assert_eq!(FrameStep::Finished.next(true), FrameStep::Finished);
}

#[test]
fn a_window_frame_goes_on_after_a_failure() {
    let mut step = WindowFrameStep::CollectElements.next(true).next(true);
    assert_eq!(step, WindowFrameStep::Draw);
    assert_eq!(step.next(true), WindowFrameStep::ServeCaptures);
    assert_eq!(step.next(true).next(false), WindowFrameStep::Submit);
    step = step.next(false).next(false);
    assert_eq!(step, WindowFrameStep::RequestRedraw);
    assert_eq!(step.next(true), WindowFrameStep::Finished);
    assert_eq!(WindowFrameStep::CollectElements.next(false), WindowFrameStep::Finished);
    assert_eq!(WindowFrameStep::BindTarget.next(false), WindowFrameStep::Finished);
}

#[test]
fn placed_layers_are_drawn() {
    let geometry = Rectangle { loc: Point { x: 3, y: 4 }, size: Size { w: 5, h: 6 } };
    assert_eq!(
        layer_shell_elements(&vec![
            LayerOnOutput { surface: 1, geometry: None },
            LayerOnOutput { surface: 2, geometry: Some(geometry) },
        ]),
        vec![LayerElement { surface: 2, location: Point { x: 3, y: 4 } }]
    );
}
