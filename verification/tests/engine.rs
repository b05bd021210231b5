use grim_rs::frame::{finish_frame, FrameCapture, FrameEvent, FrameState, FrameStep, MAX_ATTEMPTS};
use grim_rs::grim::{classify_global, GlobalKind, Grim, RefreshStep};
use grim_rs::output::{guess_output_logical_geometry, OutputEvent, OutputInfo, XdgOutputEvent};
use grim_rs::pixels::ShmFormat;
use grim_rs::transform::Transform;
use grim_rs::{Box, CaptureResult, CompositeJob, Error, FrameRequest};

fn bind_services(grim: &mut Grim) {
    assert_eq!(grim.bind_global("wl_compositor"), GlobalKind::Compositor);
    assert_eq!(grim.bind_global("wl_shm"), GlobalKind::Shm);
    assert_eq!(
        grim.bind_global("zwlr_screencopy_manager_v1"),
        GlobalKind::ScreencopyManager
    );
}

fn add_output(grim: &mut Grim, global: u32, id: u32, name: &str, x: i32, y: i32, w: i32, h: i32) {
    assert_eq!(grim.bind_global("wl_output"), GlobalKind::Output);
    grim.add_output(global, id);
    grim.output_event(
        id,
        OutputEvent::Geometry {
            x,
            y,
            transform: Some(Transform::Normal),
        },
    );
    grim.output_event(id, OutputEvent::Mode { width: w, height: h });
    grim.output_event(id, OutputEvent::Scale { factor: 1 });
    grim.output_event(
        id,
        OutputEvent::Name {
            name: name.to_string(),
        },
    );
}

fn two_outputs() -> Grim {
    let mut grim = Grim::new().unwrap();
    bind_services(&mut grim);
    assert!(matches!(grim.refresh_outputs(0), Ok(RefreshStep::Roundtrip)));
    add_output(&mut grim, 40, 7, "DP-1", 0, 0, 1920, 1080);
    add_output(&mut grim, 41, 8, "HDMI-1", 1920, 0, 1920, 1080);
    assert!(matches!(grim.refresh_outputs(1), Ok(RefreshStep::Roundtrip)));
    assert!(matches!(grim.refresh_outputs(2), Ok(RefreshStep::Roundtrip)));
    assert!(matches!(grim.refresh_outputs(3), Ok(RefreshStep::Done)));
    grim
}

/// Plays the compositor for one frame: describes a buffer of the size asked
/// for, fills it with one colour for each output, and reports the frame ready.
fn serve(grim: &Grim, mut capture: FrameCapture) -> Result<CaptureResult, Error> {
    let request = capture.request;
    let mut state = FrameState::new();
    let mut raw: Vec<u8> = Vec::new();
    loop {
        match capture.next(&state, grim.has_shm())? {
            FrameStep::Dispatch => {
                if !state.buffer {
                    state.apply_event(FrameEvent::Buffer {
                        format: Some(ShmFormat::Xrgb8888),
                        width: request.region.width() as u32,
                        height: request.region.height() as u32,
                        stride: request.region.width() as u32 * 4,
                    });
                } else {
                    assert!(state.apply_event(FrameEvent::Ready));
                }
            }
            FrameStep::CreateBuffer(layout) => {
                assert_eq!(layout.stride, layout.width * 4);
                assert_eq!(layout.size, (layout.stride * layout.height) as usize);
                let blue = request.output_id as u8;
                raw = [blue, 20, 30, 0].repeat(layout.size / 4);
            }
            FrameStep::ReadBuffer(layout) => {
                let transform = grim.transform_of(request.output_id);
                return Ok(finish_frame(raw, &layout, transform, state.flags));
            }
        }
    }
}

fn composite(grim: &Grim, mut job: CompositeJob) -> Result<CaptureResult, Error> {
    while let Some(step) = job.next_request() {
        let capture = FrameCapture::begin(step.request, grim.has_screencopy())?;
        let frame = serve(grim, capture)?;
        job.accept(frame)?;
    }
    job.finish()
}

fn pixel(image: &CaptureResult, x: u32, y: u32) -> [u8; 4] {
    let at = ((y * image.width() + x) * 4) as usize;
    let d = image.data();
    [d[at], d[at + 1], d[at + 2], d[at + 3]]
}

#[test]
fn capture_all_spans_both_outputs() {
    let grim = two_outputs();
    let job = grim.capture_all().unwrap();
    assert_eq!(job.region(), Box::new(0, 0, 3840, 1080));
    let image = composite(&grim, job).unwrap();
    assert_eq!(image.width(), 3840);
    assert_eq!(image.height(), 1080);
    assert_eq!(image.data().len(), 3840 * 1080 * 4);
    assert_eq!(pixel(&image, 0, 0), [30, 20, 7, 255]);
    assert_eq!(pixel(&image, 1919, 1079), [30, 20, 7, 255]);
    assert_eq!(pixel(&image, 1920, 0), [30, 20, 8, 255]);
    assert_eq!(pixel(&image, 3839, 1079), [30, 20, 8, 255]);
}

#[test]
fn capture_output_takes_the_whole_output() {
    let grim = two_outputs();
    let capture = grim.capture_output("DP-1").unwrap();
    assert_eq!(capture.request.output_id, 7);
    assert_eq!(capture.request.region, Box::new(0, 0, 1920, 1080));
    assert!(!capture.request.overlay_cursor);
    let image = serve(&grim, capture).unwrap();
    assert_eq!(image.width(), 1920);
    assert_eq!(image.height(), 1080);
    assert_eq!(pixel(&image, 5, 5), [30, 20, 7, 255]);
}

#[test]
fn region_across_two_outputs_takes_from_both() {
    let grim = two_outputs();
    let mut job = grim.capture_region(Box::new(1800, 400, 240, 280)).unwrap();
    let first = job.next_request().unwrap();
    assert_eq!(first.request.output_id, 7);
    assert_eq!(first.request.region, Box::new(1800, 400, 120, 280));
    assert_eq!(first.intersection, Box::new(1800, 400, 120, 280));
    let frame = serve(&grim, FrameCapture::begin(first.request, true).unwrap()).unwrap();
    job.accept(frame).unwrap();
    let second = job.next_request().unwrap();
    assert_eq!(second.request.output_id, 8);
    assert_eq!(second.request.region, Box::new(0, 400, 120, 280));
    assert_eq!(second.intersection, Box::new(1920, 400, 120, 280));
    let frame = serve(&grim, FrameCapture::begin(second.request, true).unwrap()).unwrap();
    job.accept(frame).unwrap();
    assert!(job.next_request().is_none());
    let image = job.finish().unwrap();
    assert_eq!((image.width(), image.height()), (240, 280));
    for y in [0u32, 100, 279] {
        for x in 0..120u32 {
            assert_eq!(pixel(&image, x, y), [30, 20, 7, 255]);
        }
        for x in 120..240u32 {
            assert_eq!(pixel(&image, x, y), [30, 20, 8, 255]);
        }
    }
}

#[test]
fn unknown_output_is_not_found() {
    let grim = two_outputs();
    match grim.capture_output("VGA-9") {
        Err(Error::OutputNotFound(name)) => assert_eq!(name, "VGA-9"),
        other => panic!("unexpected: {:?}", other.map(|c| c.request)),
    }
}

#[test]
fn region_outside_all_outputs_is_invalid() {
    let grim = two_outputs();
    for region in [
        Box::new(5000, 5000, 100, 100),
        Box::new(3840, 0, 10, 10),
        Box::new(0, 1080, 3840, 1),
        Box::new(-50, -50, 50, 50),
        Box::new(i32::MAX - 5, 0, i32::MAX, i32::MAX),
    ] {
        match grim.capture_region(region) {
            Err(Error::InvalidRegion(text)) => {
                assert_eq!(text, "Capture region does not intersect with any output")
            }
            _ => panic!("a region outside the outputs was taken"),
        }
    }
    let mut job = grim.capture_region(Box::new(3839, 1079, 10, 10)).unwrap();
    assert!(job.next_request().is_some());
    match job.finish() {
        Err(Error::InvalidRegion(text)) => {
            assert_eq!(text, "Capture region does not intersect with any output")
        }
        _ => panic!("an image came of no frame"),
    }
}

#[test]
fn region_without_size_is_invalid() {
    let grim = two_outputs();
    for region in [Box::new(0, 0, 0, 10), Box::new(0, 0, 10, -1)] {
        match grim.capture_region(region) {
            Err(Error::InvalidRegion(text)) => {
                assert_eq!(text, "Capture region must have positive width and height")
            }
            _ => panic!("a region without size was taken"),
        }
    }
}

#[test]
fn capture_all_without_outputs_fails() {
    let grim = Grim::new().unwrap();
    assert!(matches!(grim.capture_all(), Err(Error::NoOutputs)));
    assert!(matches!(grim.get_outputs(), Err(Error::NoOutputs)));
}

#[test]
fn refresh_without_outputs_fails() {
    let mut grim = Grim::new().unwrap();
    bind_services(&mut grim);
    assert!(matches!(grim.refresh_outputs(0), Ok(RefreshStep::Roundtrip)));
    assert!(matches!(grim.refresh_outputs(1), Err(Error::NoOutputs)));
}

#[test]
fn refresh_forgets_earlier_outputs() {
    let mut grim = two_outputs();
    assert_eq!(grim.output_ids(), vec![7, 8]);
    assert!(matches!(grim.refresh_outputs(0), Ok(RefreshStep::Roundtrip)));
    assert_eq!(grim.output_ids(), Vec::<u32>::new());
    add_output(&mut grim, 50, 9, "eDP-1", 0, 0, 800, 600);
    assert!(matches!(grim.refresh_outputs(1), Ok(RefreshStep::Roundtrip)));
    assert!(matches!(grim.refresh_outputs(2), Ok(RefreshStep::Roundtrip)));
    assert!(matches!(grim.refresh_outputs(3), Ok(RefreshStep::Done)));
    let outputs = grim.get_outputs().unwrap();
    assert_eq!(outputs.len(), 1);
    assert_eq!(outputs[0].name(), "eDP-1");
}

#[test]
fn required_protocols_are_checked() {
    let mut grim = Grim::new().unwrap();
    match grim.check_protocols() {
        Err(Error::UnsupportedProtocol(text)) => {
            assert_eq!(text, "zwlr_screencopy_manager_v1 not available")
        }
        _ => panic!("expected a missing protocol"),
    }
    grim.bind_global("zwlr_screencopy_manager_v1");
    match grim.check_protocols() {
        Err(Error::UnsupportedProtocol(text)) => assert_eq!(text, "wl_shm not available"),
        _ => panic!("expected a missing protocol"),
    }
    grim.bind_global("wl_shm");
    assert!(grim.check_protocols().is_ok());
}

#[test]
fn globals_are_told_apart() {
    assert_eq!(classify_global("wl_compositor"), GlobalKind::Compositor);
    assert_eq!(classify_global("wl_shm"), GlobalKind::Shm);
    assert_eq!(
        classify_global("zxdg_output_manager_v1"),
        GlobalKind::XdgOutputManager
    );
    assert_eq!(classify_global("wl_output"), GlobalKind::Output);
    assert_eq!(classify_global("wl_seat"), GlobalKind::Other);
    assert_eq!(classify_global("wl_outputs"), GlobalKind::Other);
    assert_eq!(classify_global(""), GlobalKind::Other);
}

#[test]
fn outputs_are_listed_with_placeholder_names_and_guessed_boxes() {
    let mut grim = Grim::new().unwrap();
    bind_services(&mut grim);
    grim.refresh_outputs(0).unwrap();
    assert!(!grim.add_output(33, 5));
    grim.output_event(
        5,
        OutputEvent::Geometry {
            x: 100,
            y: 50,
            transform: Some(Transform::_90),
        },
    );
    grim.output_event(
        5,
        OutputEvent::Mode {
            width: 3840,
            height: 2160,
        },
    );
    grim.output_event(5, OutputEvent::Scale { factor: 2 });
    grim.output_event(5, OutputEvent::Scale { factor: 0 });
    grim.output_event(
        5,
        OutputEvent::Description {
            description: "A monitor".to_string(),
        },
    );
    grim.output_event(99, OutputEvent::Scale { factor: 3 });
    for n in 1..=3 {
        grim.refresh_outputs(n).unwrap();
    }
    let outputs = grim.get_outputs().unwrap();
    assert_eq!(outputs.len(), 1);
    assert_eq!(outputs[0].name(), "output-33");
    assert_eq!(outputs[0].scale(), 2);
    assert_eq!(outputs[0].description(), Some("A monitor"));
    assert_eq!(*outputs[0].geometry(), Box::new(100, 50, 1080, 1920));
    assert_eq!(grim.transform_of(5), Transform::_90);
    assert_eq!(grim.transform_of(6), Transform::Normal);
}

#[test]
fn logical_side_comes_from_the_compositor_where_it_tells() {
    let mut grim = Grim::new().unwrap();
    bind_services(&mut grim);
    assert_eq!(
        grim.bind_global("zxdg_output_manager_v1"),
        GlobalKind::XdgOutputManager
    );
    grim.refresh_outputs(0).unwrap();
    assert!(grim.add_output(1, 5));
    grim.link_xdg_output(5, 60);
    grim.output_event(
        5,
        OutputEvent::Geometry {
            x: 0,
            y: 0,
            transform: None,
        },
    );
    grim.output_event(
        5,
        OutputEvent::Mode {
            width: 3840,
            height: 2160,
        },
    );
    grim.output_event(5, OutputEvent::Scale { factor: 2 });
    grim.xdg_output_event(60, XdgOutputEvent::LogicalPosition { x: 10, y: 20 });
    grim.xdg_output_event(
        60,
        XdgOutputEvent::LogicalSize {
            width: 1920,
            height: 1080,
        },
    );
    grim.xdg_output_event(
        60,
        XdgOutputEvent::Name {
            name: "DP-3".to_string(),
        },
    );
    grim.xdg_output_event(
        60,
        XdgOutputEvent::Name {
            name: "other".to_string(),
        },
    );
    grim.xdg_output_event(61, XdgOutputEvent::LogicalPosition { x: 1, y: 1 });
    grim.xdg_output_event(60, XdgOutputEvent::Done);
    grim.output_event(
        5,
        OutputEvent::Mode {
            width: 1000,
            height: 500,
        },
    );
    for n in 1..=3 {
        grim.refresh_outputs(n).unwrap();
    }
    let outputs = grim.get_outputs().unwrap();
    assert_eq!(outputs[0].name(), "DP-3");
    assert_eq!(*outputs[0].geometry(), Box::new(10, 20, 1920, 1080));
    assert_eq!(outputs[0].description(), None);
}

#[test]
fn scaled_output_is_asked_in_device_pixels_and_brought_down() {
    let mut grim = Grim::new().unwrap();
    bind_services(&mut grim);
    grim.refresh_outputs(0).unwrap();
    grim.add_output(1, 5);
    grim.output_event(
        5,
        OutputEvent::Geometry {
            x: 0,
            y: 0,
            transform: Some(Transform::Normal),
        },
    );
    grim.output_event(
        5,
        OutputEvent::Mode {
            width: 40,
            height: 20,
        },
    );
    grim.output_event(5, OutputEvent::Scale { factor: 2 });
    for n in 1..=3 {
        grim.refresh_outputs(n).unwrap();
    }
    let mut job = grim.capture_region(Box::new(5, 5, 10, 5)).unwrap();
    let step = job.next_request().unwrap();
    assert_eq!(step.scale, 2);
    assert_eq!(step.intersection, Box::new(5, 5, 10, 5));
    assert_eq!(step.request.region, Box::new(10, 10, 20, 10));
    let frame = serve(&grim, FrameCapture::begin(step.request, true).unwrap()).unwrap();
    assert_eq!((frame.width(), frame.height()), (20, 10));
    job.accept(frame).unwrap();
    let image = job.finish().unwrap();
    assert_eq!((image.width(), image.height()), (10, 5));
    assert_eq!(pixel(&image, 3, 3), [30, 20, 5, 255]);
}

#[test]
fn frame_times_out_waiting_for_the_buffer() {
    let grim = two_outputs();
    let mut capture = grim.capture_output("HDMI-1").unwrap();
    let state = FrameState::new();
    for _ in 0..MAX_ATTEMPTS {
        assert!(matches!(capture.next(&state, true), Ok(FrameStep::Dispatch)));
    }
    match capture.next(&state, true) {
        Err(Error::FrameCapture(text)) => assert_eq!(text, "Timeout waiting for frame buffer"),
        _ => panic!("expected a timeout"),
    }
}

#[test]
fn frame_times_out_waiting_for_the_copy() {
    let grim = two_outputs();
    let mut capture = grim.capture_output("HDMI-1").unwrap();
    let mut state = FrameState::new();
    state.apply_event(FrameEvent::Buffer {
        format: None,
        width: 4,
        height: 2,
        stride: 16,
    });
    match capture.next(&state, true) {
        Ok(FrameStep::CreateBuffer(layout)) => {
            assert_eq!(layout.format, ShmFormat::Xrgb8888);
            assert_eq!(layout.size, 32);
        }
        _ => panic!("expected a buffer to make"),
    }
    for _ in 0..MAX_ATTEMPTS {
        assert!(matches!(capture.next(&state, true), Ok(FrameStep::Dispatch)));
    }
    match capture.next(&state, true) {
        Err(Error::FrameCapture(text)) => {
            assert_eq!(text, "Timeout waiting for frame capture completion")
        }
        _ => panic!("expected a timeout"),
    }
}

#[test]
fn frame_failures_are_told_apart() {
    let grim = two_outputs();
    let mut failed = FrameState::new();
    assert!(!failed.apply_event(FrameEvent::Failed));
    let mut capture = grim.capture_output("DP-1").unwrap();
    match capture.next(&failed, true) {
        Err(Error::FrameCapture(text)) => {
            assert_eq!(text, "Frame is ready but buffer was not received")
        }
        _ => panic!("expected a protocol violation"),
    }
    let mut empty = FrameState::new();
    empty.apply_event(FrameEvent::Buffer {
        format: Some(ShmFormat::Argb8888),
        width: 0,
        height: 5,
        stride: 0,
    });
    let mut capture = grim.capture_output("DP-1").unwrap();
    assert!(matches!(capture.next(&empty, true), Err(Error::CaptureFailed)));
    let mut capture = grim.capture_output("DP-1").unwrap();
    match capture.next(&empty, false) {
        Err(Error::UnsupportedProtocol(text)) => assert_eq!(text, "wl_shm not available"),
        _ => panic!("expected missing shared memory"),
    }
    let mut huge = FrameState::new();
    huge.apply_event(FrameEvent::Buffer {
        format: Some(ShmFormat::Argb8888),
        width: 40000,
        height: 40000,
        stride: 160000,
    });
    let mut capture = grim.capture_output("DP-1").unwrap();
    match capture.next(&huge, true) {
        Err(Error::BufferCreation(text)) => {
            assert_eq!(text, "frame of 40000x40000 does not fit a shared-memory pool")
        }
        _ => panic!("expected an oversize frame"),
    }
}

#[test]
fn frame_region_is_validated() {
    let request = |region| FrameRequest {
        output_id: 1,
        region,
        overlay_cursor: true,
    };
    match FrameCapture::begin(request(Box::new(0, 0, 0, 5)), true) {
        Err(Error::InvalidRegion(text)) => {
            assert_eq!(text, "Capture region must have positive width and height")
        }
        _ => panic!("expected an invalid region"),
    }
    match FrameCapture::begin(request(Box::new(-1, 0, 5, 5)), true) {
        Err(Error::InvalidRegion(text)) => {
            assert_eq!(text, "Capture region origin must be non-negative")
        }
        _ => panic!("expected an invalid region"),
    }
    match FrameCapture::begin(request(Box::new(0, 0, 5, 5)), false) {
        Err(Error::UnsupportedProtocol(text)) => {
            assert_eq!(text, "zwlr_screencopy_manager_v1 not available")
        }
        _ => panic!("expected a missing protocol"),
    }
    let capture = FrameCapture::begin(request(Box::new(0, 0, 5, 5)), true).unwrap();
    assert_eq!(capture.attempts, 0);
}

#[test]
fn frame_events_are_taken_in() {
    let mut state = FrameState::new();
    assert!(!state.buffer && !state.ready);
    assert!(!state.apply_event(FrameEvent::Flags { flags: Some(1) }));
    assert_eq!(state.flags, 1);
    assert!(!state.apply_event(FrameEvent::Flags { flags: None }));
    assert_eq!(state.flags, 1);
    assert!(!state.apply_event(FrameEvent::LinuxDmabuf));
    assert!(!state.apply_event(FrameEvent::BufferDone));
    assert!(!state.apply_event(FrameEvent::Other));
    assert!(!state.buffer && !state.ready);
    assert!(!state.apply_event(FrameEvent::Buffer {
        format: Some(ShmFormat::Other(875713112)),
        width: 3,
        height: 2,
        stride: 12,
    }));
    assert!(state.buffer);
    assert_eq!((state.width, state.height), (3, 2));
    assert_eq!(state.format, Some(ShmFormat::Other(875713112)));
    assert!(state.apply_event(FrameEvent::Ready));
    assert!(state.ready);
}

#[test]
fn logical_box_is_guessed_from_the_physical_one() {
    let mut info = OutputInfo::new(3);
    assert_eq!(info.name, "output-3");
    assert_eq!((info.scale, info.transform), (1, Transform::Normal));
    assert!(!info.logical_scale_known && info.description.is_none());
    info.apply_output_event(OutputEvent::Geometry {
        x: -40,
        y: 30,
        transform: Some(Transform::Flipped270),
    });
    info.apply_output_event(OutputEvent::Mode {
        width: 2561,
        height: -7,
    });
    info.apply_output_event(OutputEvent::Scale { factor: 2 });
    assert_eq!((info.logical_width, info.logical_height), (2561, -7));
    guess_output_logical_geometry(&mut info);
    assert!(info.logical_scale_known);
    assert_eq!((info.logical_x, info.logical_y), (-40, 30));
    assert_eq!((info.logical_width, info.logical_height), (-3, 1280));
    info.apply_output_event(OutputEvent::Mode {
        width: 100,
        height: 100,
    });
    assert_eq!((info.width, info.height), (100, 100));
    assert_eq!((info.logical_width, info.logical_height), (-3, 1280));
    info.apply_xdg_event(XdgOutputEvent::Name {
        name: "DP-9".to_string(),
    });
    assert_eq!(info.name, "DP-9");
    info.apply_xdg_event(XdgOutputEvent::Description {
        description: "left".to_string(),
    });
    assert_eq!(info.description.as_deref(), Some("left"));
    let copy = info.duplicate();
    assert_eq!(copy.name, "DP-9");
    let listed = copy.to_output();
    assert_eq!(*listed.geometry(), Box::new(-40, 30, -3, 1280));
}
