use grim_rs::grim::first_fit;
use grim_rs::{CaptureMap, CaptureParameters, CaptureResult, Error, Grim, NamedRequest};
use grim_rs::frame::{FrameEvent, FrameState, MAX_ATTEMPTS};
use grim_rs::multi::MultiStep;
use grim_rs::output::OutputEvent;
use grim_rs::pixels::ShmFormat;
use grim_rs::transform::Transform;
use grim_rs::Box;

#[test]
fn ppm_holds_the_head_and_the_colours() {
    let grim = Grim::new().unwrap();
    let data = vec![1, 2, 3, 4, 5, 6, 7, 8, 9, 10];
    let ppm = grim.to_ppm(&data, 12, 345).unwrap();
    let mut expected = b"P6\n12 345\n255\n".to_vec();
    expected.extend_from_slice(&[1, 2, 3, 5, 6, 7]);
    assert_eq!(ppm, expected);
    let empty = grim.to_ppm(&[], 0, 4294967295).unwrap();
    assert_eq!(empty, b"P6\n0 4294967295\n255\n".to_vec());
}

#[test]
fn png_is_a_png_file() {
    let grim = Grim::new().unwrap();
    let data = [10u8, 20, 30, 255].repeat(6);
    for level in [0u8, 2, 5, 9, 200] {
        let png = grim.to_png_with_compression(&data, 3, 2, level).unwrap();
        assert_eq!(&png[..8], &[137, 80, 78, 71, 13, 10, 26, 10]);
        assert_eq!(&png[12..16], b"IHDR");
        assert_eq!(&png[16..24], &[0, 0, 0, 3, 0, 0, 0, 2]);
        assert_eq!(&png[png.len() - 8..png.len() - 4], b"IEND");
        let for_file = grim.png_file_data(&data, 3, 2, level).unwrap();
        assert_eq!(&for_file[..8], &[137, 80, 78, 71, 13, 10, 26, 10]);
    }
    assert_eq!(
        grim.to_png(&data, 3, 2).unwrap(),
        grim.to_png_with_compression(&data, 3, 2, 6).unwrap()
    );
}

#[test]
fn png_refuses_what_does_not_match() {
    let grim = Grim::new().unwrap();
    let data = [10u8, 20, 30, 255].repeat(6);
    assert!(matches!(
        grim.to_png(&data, 3, 3),
        Err(Error::ImageProcessing(_))
    ));
    match grim.to_png(&data, 0, 2) {
        Err(Error::Io(e)) => assert!(e.to_string().starts_with("PNG encoding error: ")),
        _ => panic!("expected an encoder error"),
    }
    match grim.to_png(&data, 3, 1) {
        Err(Error::Io(e)) => assert!(e.to_string().starts_with("PNG encoding error: ")),
        _ => panic!("expected an encoder error"),
    }
    match grim.to_png(&data, 3, 3) {
        Err(e) => {
            let message = e.to_string();
            assert!(message.starts_with("Image processing error: "));
            assert!(message.contains("dimensions"));
        }
        _ => panic!("expected a mismatch"),
    }
}

#[test]
fn jpeg_is_a_jpeg_file() {
    let grim = Grim::new().unwrap();
    let data = [200u8, 100, 50, 255].repeat(16 * 8);
    for quality in [0u8, 50, 80, 95, 100, 255] {
        let jpeg = grim.to_jpeg_with_quality(&data, 16, 8, quality).unwrap();
        assert_eq!(&jpeg[..2], &[0xff, 0xd8]);
        assert_eq!(&jpeg[jpeg.len() - 2..], &[0xff, 0xd9]);
    }
    assert_eq!(
        grim.to_jpeg(&data, 16, 8).unwrap(),
        grim.to_jpeg_with_quality(&data, 16, 8, 80).unwrap()
    );
    let longer = [data.clone(), vec![1, 2, 3]].concat();
    assert_eq!(
        grim.to_jpeg(&longer, 16, 8).unwrap(),
        grim.to_jpeg(&data, 16, 8).unwrap()
    );
}

#[test]
fn jpeg_refuses_what_does_not_match() {
    let grim = Grim::new().unwrap();
    let data = [200u8, 100, 50, 255].repeat(4);
    assert!(matches!(
        grim.to_jpeg(&data, 3, 2),
        Err(Error::ImageProcessing(_))
    ));
    match grim.to_jpeg(&data, 0, 7) {
        Err(Error::Io(e)) => assert!(e.to_string().starts_with("JPEG encoding error: ")),
        _ => panic!("expected an encoder error"),
    }
    match grim.to_jpeg(&[], 65536, 0) {
        Err(Error::Io(e)) => assert!(e.to_string().starts_with("JPEG encoding error: ")),
        _ => panic!("expected an encoder error"),
    }
}

#[test]
fn large_buffers_are_pooled() {
    let mut grim = Grim::new().unwrap();
    grim.return_buffer(vec![1u8; 100]);
    grim.return_buffer(Vec::with_capacity(10));
    let fresh = grim.get_buffer(16);
    assert!(fresh.is_empty());
    assert!(fresh.capacity() >= 16);
    let big = vec![7u8; 1024 * 1024];
    let address = big.as_ptr();
    grim.return_buffer(big);
    let too_small = grim.get_buffer(2 * 1024 * 1024);
    assert!(too_small.is_empty());
    assert!(too_small.as_ptr() != address);
    let reused = grim.get_buffer(1024);
    assert!(reused.is_empty());
    assert_eq!(reused.as_ptr(), address);
    let again = grim.get_buffer(1024);
    assert!(again.as_ptr() != address);
}

#[test]
fn pool_hands_out_by_place() {
    let mut grim = Grim::new().unwrap();
    grim.keep_buffer(vec![1], 2_000_000);
    grim.keep_buffer(vec![2, 2], 2_000_000);
    grim.keep_buffer(vec![3, 3, 3], 2_000_000);
    grim.keep_buffer(vec![4], 1_048_575);
    let taken = grim.take_buffer(Some(0), 0);
    assert!(taken.is_empty());
    let made = grim.take_buffer(None, 33);
    assert!(made.is_empty());
    assert!(made.capacity() >= 33);
    assert!(grim.take_buffer(Some(1), 0).is_empty());
    assert!(grim.take_buffer(Some(0), 0).is_empty());
}

fn engine() -> Grim {
    let mut grim = Grim::new().unwrap();
    grim.bind_global("wl_shm");
    grim.bind_global("zwlr_screencopy_manager_v1");
    for (global, id, name, x) in [(1u32, 11u32, "DP-1", 0), (2, 12, "HDMI-1", 1920)] {
        grim.add_output(global, id);
        grim.output_event(
            id,
            OutputEvent::Geometry {
                x,
                y: 0,
                transform: Some(Transform::_90),
            },
        );
        grim.output_event(
            id,
            OutputEvent::Mode {
                width: 1920,
                height: 1080,
            },
        );
        grim.output_event(
            id,
            OutputEvent::Name {
                name: name.to_string(),
            },
        );
    }
    grim
}

fn described(width: u32, height: u32, format: Option<ShmFormat>) -> FrameState {
    let mut state = FrameState::new();
    state.apply_event(FrameEvent::Buffer {
        format,
        width,
        height,
        stride: width * 4,
    });
    state
}

#[test]
fn several_outputs_are_planned_in_order() {
    let grim = engine();
    let parameters = vec![
        CaptureParameters::new("HDMI-1").overlay_cursor(true),
        CaptureParameters::new("DP-1").region(Box::new(10, 20, 300, 400)),
    ];
    let (multi, requests): (_, Vec<NamedRequest>) = grim.capture_outputs(parameters).unwrap();
    assert_eq!(multi.slot_count(), 2);
    assert_eq!(requests.len(), 2);
    assert_eq!(requests[0].name, "HDMI-1");
    assert_eq!(requests[0].slot, 0);
    assert_eq!(requests[0].request.output_id, 12);
    assert_eq!(requests[0].request.region, Box::new(1920, 0, 1920, 1080));
    assert!(requests[0].request.overlay_cursor);
    assert_eq!(requests[1].name, "DP-1");
    assert_eq!(requests[1].slot, 1);
    assert_eq!(requests[1].request.output_id, 11);
    assert_eq!(requests[1].request.region, Box::new(10, 20, 300, 400));
    assert!(!requests[1].request.overlay_cursor);
}

#[test]
fn several_outputs_are_refused_where_one_is_wrong() {
    let grim = engine();
    match grim.capture_outputs(vec![
        CaptureParameters::new("DP-1"),
        CaptureParameters::new("nowhere"),
        CaptureParameters::new("HDMI-1").region(Box::new(0, 0, 10, 10)),
    ]) {
        Err(Error::OutputNotFound(name)) => assert_eq!(name, "nowhere"),
        _ => panic!("expected an unknown output"),
    }
    for region in [
        Box::new(1919, 0, 10, 10),
        Box::new(1920, -1, 10, 10),
        Box::new(1920, 0, 1921, 10),
        Box::new(1920, 0, 10, 1081),
        Box::new(i32::MAX, 0, i32::MAX, 1),
    ] {
        match grim.capture_outputs(vec![CaptureParameters::new("HDMI-1").region(region)]) {
            Err(Error::InvalidRegion(text)) => {
                assert_eq!(text, "Capture region extends outside output boundaries")
            }
            _ => panic!("expected an invalid region"),
        }
    }
    assert!(matches!(
        Grim::new().unwrap().capture_outputs(vec![]),
        Err(Error::NoOutputs)
    ));
    let mut without = Grim::new().unwrap();
    without.add_output(1, 1);
    match without.capture_outputs(vec![]) {
        Err(Error::UnsupportedProtocol(text)) => {
            assert_eq!(text, "zwlr_screencopy_manager_v1 not available")
        }
        _ => panic!("expected a missing protocol"),
    }
}

#[test]
fn several_frames_are_awaited_together() {
    let grim = engine();
    let (mut multi, _) = grim
        .capture_outputs(vec![
            CaptureParameters::new("DP-1"),
            CaptureParameters::new("HDMI-1"),
        ])
        .unwrap();
    let mut states = vec![FrameState::new(), FrameState::new()];
    assert!(matches!(multi.next(&states), Ok(MultiStep::Dispatch)));
    states[1] = described(2, 1, Some(ShmFormat::Xrgb8888));
    assert!(matches!(multi.next(&states), Ok(MultiStep::Dispatch)));
    states[0] = described(1, 2, None);
    match multi.next(&states) {
        Ok(MultiStep::CreateBuffers(layouts)) => {
            assert_eq!(layouts.len(), 2);
            let first = layouts[0].unwrap();
            assert_eq!((first.width, first.height, first.stride, first.size), (1, 2, 4, 8));
            assert_eq!(first.format, ShmFormat::Xrgb8888);
            let second = layouts[1].unwrap();
            assert_eq!((second.width, second.height, second.size), (2, 1, 8));
        }
        _ => panic!("expected buffers to make"),
    }
    assert!(matches!(multi.next(&states), Ok(MultiStep::Dispatch)));
    states[0].apply_event(FrameEvent::Ready);
    assert!(matches!(multi.next(&states), Ok(MultiStep::Dispatch)));
    states[1].apply_event(FrameEvent::Ready);
    assert!(matches!(multi.next(&states), Ok(MultiStep::ReadBuffers)));
    let raws = vec![vec![1, 2, 3, 4, 5, 6, 7, 8], vec![1, 2, 3, 4, 5, 6, 7, 8]];
    let captures = multi.finish(&states, raws);
    assert_eq!(captures.len(), 2);
    assert_eq!(captures[0].name, "DP-1");
    assert_eq!(captures[0].capture.data(), &[1, 2, 3, 4, 5, 6, 7, 8]);
    assert_eq!(
        (captures[0].capture.width(), captures[0].capture.height()),
        (1, 2)
    );
    assert_eq!(captures[1].name, "HDMI-1");
    assert_eq!(captures[1].capture.data(), &[3, 2, 1, 255, 7, 6, 5, 255]);
    assert_eq!(
        (captures[1].capture.width(), captures[1].capture.height()),
        (2, 1)
    );
}

#[test]
fn several_frames_time_out() {
    let grim = engine();
    let (mut multi, _) = grim
        .capture_outputs(vec![CaptureParameters::new("DP-1")])
        .unwrap();
    let waiting = vec![FrameState::new()];
    for _ in 0..MAX_ATTEMPTS {
        assert!(matches!(multi.next(&waiting), Ok(MultiStep::Dispatch)));
    }
    let late = vec![described(1, 1, None)];
    match multi.next(&late) {
        Err(Error::FrameCapture(text)) => assert_eq!(text, "Timeout waiting for frame buffers"),
        _ => panic!("expected a timeout"),
    }
    let (mut multi, _) = grim
        .capture_outputs(vec![CaptureParameters::new("DP-1")])
        .unwrap();
    assert!(matches!(multi.next(&late), Ok(MultiStep::CreateBuffers(_))));
    for _ in 0..MAX_ATTEMPTS {
        assert!(matches!(multi.next(&late), Ok(MultiStep::Dispatch)));
    }
    match multi.next(&late) {
        Err(Error::FrameCapture(text)) => {
            assert_eq!(text, "Timeout waiting for frame capture completion")
        }
        _ => panic!("expected a timeout"),
    }
}

#[test]
fn several_frames_fail_where_one_does() {
    let grim = engine();
    let begin = || {
        grim.capture_outputs(vec![
            CaptureParameters::new("DP-1"),
            CaptureParameters::new("HDMI-1"),
        ])
        .unwrap()
        .0
    };
    let mut failed = FrameState::new();
    failed.apply_event(FrameEvent::Failed);
    let ok = described(1, 1, None);
    assert!(matches!(
        begin().next(&vec![ok, failed]),
        Err(Error::CaptureFailed)
    ));
    let huge = described(70000, 70000, None);
    match begin().next(&vec![huge, failed]) {
        Err(Error::BufferCreation(text)) => {
            assert_eq!(text, "frame of 70000x70000 does not fit a shared-memory pool")
        }
        _ => panic!("expected an oversize frame"),
    }
    let twice = grim
        .capture_outputs(vec![
            CaptureParameters::new("DP-1"),
            CaptureParameters::new("DP-1").overlay_cursor(true),
        ])
        .unwrap();
    assert_eq!(twice.1[0].slot, 0);
    assert_eq!(twice.1[1].slot, 0);
    let mut multi = twice.0;
    for _ in 0..MAX_ATTEMPTS {
        assert!(matches!(multi.next(&vec![ok, ok]), Ok(MultiStep::Dispatch)));
    }
    assert!(matches!(
        multi.next(&vec![ok, ok]),
        Err(Error::FrameCapture(_))
    ));
    let (mut none, requests) = grim.capture_outputs(vec![]).unwrap();
    assert!(requests.is_empty());
    assert!(matches!(none.next(&vec![]), Ok(MultiStep::CreateBuffers(_))));
    assert!(matches!(none.next(&vec![]), Ok(MultiStep::ReadBuffers)));
    assert!(none.finish(&vec![], vec![]).is_empty());
}

#[test]
fn capture_parameters_are_built_step_by_step() {
    let plain = CaptureParameters::new("eDP-1");
    assert_eq!(plain.output_name(), "eDP-1");
    assert_eq!(plain.region_ref(), None);
    assert!(!plain.overlay_cursor_enabled());
    let region = Box::new(10, 20, 640, 480);
    let full = CaptureParameters::new("HDMI-A-1")
        .region(region)
        .overlay_cursor(true);
    assert_eq!(full.output_name(), "HDMI-A-1");
    assert_eq!(full.region_ref(), Some(&region));
    assert!(full.overlay_cursor_enabled());
    let back = full.overlay_cursor(false).region(Box::new(0, 0, 1, 1));
    assert_eq!(back.region_ref(), Some(&Box::new(0, 0, 1, 1)));
    assert!(!back.overlay_cursor_enabled());
    assert_eq!(back.output_name(), "HDMI-A-1");
}

#[test]
fn first_fit_takes_the_first_that_has_room() {
    assert_eq!(first_fit(&vec![], 0), None);
    assert_eq!(first_fit(&vec![5, 10, 20, 10], 10), Some(1));
    assert_eq!(first_fit(&vec![5, 10, 20, 10], 11), Some(2));
    assert_eq!(first_fit(&vec![5, 10, 20, 10], 21), None);
    assert_eq!(first_fit(&vec![5, 10, 20, 10], 0), Some(0));
}

#[test]
fn images_are_kept_by_name() {
    let mut map = CaptureMap::new();
    assert!(map.is_empty());
    assert!(map.get("DP-1").is_none());
    assert!(map
        .insert("DP-1".to_string(), CaptureResult::new(vec![1; 4], 1, 1))
        .is_none());
    assert!(map
        .insert("DP-2".to_string(), CaptureResult::new(vec![2; 8], 2, 1))
        .is_none());
    assert_eq!(map.len(), 2);
    assert!(map.contains_key("DP-1") && map.contains_key("DP-2"));
    assert!(!map.contains_key("DP-3") && !map.contains_key("DP-") && !map.contains_key(""));
    assert_eq!(map.get("DP-2").unwrap().data(), &[2; 8]);
    let before = map
        .insert("DP-1".to_string(), CaptureResult::new(vec![3; 12], 3, 1))
        .unwrap();
    assert_eq!(before.data(), &[1; 4]);
    assert_eq!(map.len(), 2);
    assert_eq!(map.get("DP-1").unwrap().width(), 3);
    assert_eq!(map.get("DP-2").unwrap().width(), 2);
    let entries = map.into_entries();
    assert_eq!(entries.len(), 2);
    assert_eq!(entries[0].name, "DP-1");
    assert_eq!(entries[0].capture.data(), &[3; 12]);
    assert_eq!(entries[1].name, "DP-2");
}
