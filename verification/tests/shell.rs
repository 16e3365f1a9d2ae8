use cellsight::camera::{capture_plan, device_for, source_size_of, stream_end_message, video_size_arg};
use cellsight::shell::{
    retire_frames, slider_value, CellSight, Dropdown, FrameHandOff, StreamEvent, Tool,
};

#[test]
fn defaults_match_best_camera_mode() {
    let app = CellSight::new();
    assert_eq!(app.resolutions[app.resolution], "2592 × 1944");
    assert_eq!(app.fps_values[app.fps], 30);
    assert!(!app.streaming);
    assert!(app.camera_open && app.capture_open);
    assert_eq!(app.tool, Tool::Pen);
    assert_eq!(app.cameras[app.camera], "USB Microscope · /dev/video0");
}

#[test]
fn dropdowns_toggle_and_select() {
    let mut app = CellSight::new();
    app.toggle_dropdown(Dropdown::Format);
    assert_eq!(app.open_dropdown, Some(Dropdown::Format));
    app.toggle_dropdown(Dropdown::Camera);
    assert_eq!(app.open_dropdown, Some(Dropdown::Camera));
    app.toggle_dropdown(Dropdown::Camera);
    assert_eq!(app.open_dropdown, None);
    app.toggle_dropdown(Dropdown::FrameRate);
    app.select_option(Dropdown::FrameRate, 3);
    assert_eq!(app.fps_values[app.fps], 15);
    assert_eq!(app.open_dropdown, None);
    assert_eq!(app.camera, 1);
}

#[test]
fn default_capture_plan() {
    let app = CellSight::new();
    let plan = app.capture_plan();
    assert_eq!(plan.program, "ffmpeg");
    assert_eq!(plan.device, "/dev/video0");
    assert_eq!(plan.video_size, "2592x1944");
    assert_eq!((plan.preview_width, plan.preview_height), (1280, 960));
    assert_eq!(plan.frame_byte_len, 1280 * 960 * 4);
    let expected: Vec<&str> = vec![
        "-hide_banner", "-loglevel", "error", "-fflags", "nobuffer", "-flags", "low_delay",
        "-analyzeduration", "0", "-probesize", "32", "-f", "v4l2", "-input_format", "mjpeg",
        "-video_size", "2592x1944", "-framerate", "30", "-i", "/dev/video0", "-an", "-vf",
        "scale=1280:960:flags=fast_bilinear", "-pix_fmt", "bgra", "-f", "rawvideo",
        "-flush_packets", "1", "-",
    ];
    assert_eq!(plan.args, expected);
}

#[test]
fn capture_plan_for_small_modes_and_other_devices() {
    let plan = capture_plan("Integrated Camera", "YUYV", "640 × 480", 5);
    assert_eq!(plan.device, "/dev/video0");
    assert_eq!(plan.args[14], "yuyv422");
    assert_eq!(plan.args[18], "5");
    assert_eq!((plan.preview_width, plan.preview_height), (640, 480));
    assert_eq!(plan.args[23], "scale=640:480:flags=fast_bilinear");
    let odd = capture_plan("Cam · /dev/video3 ", "H264", "wide", 60);
    assert_eq!(odd.device, "/dev/video3");
    assert_eq!(odd.args[14], "H264");
    assert_eq!(odd.video_size, "wide");
    assert_eq!((odd.preview_width, odd.preview_height), (1280, 960));
}

#[test]
fn camera_text_helpers() {
    assert_eq!(device_for("USB · /tmp/cam"), "/dev/video0");
    assert_eq!(device_for("A · /dev/video1 · B"), "/dev/video1");
    assert_eq!(video_size_arg("2592 × 1944"), "2592x1944");
    assert_eq!(source_size_of("2592x1944"), (2592, 1944));
    assert_eq!(source_size_of("1x2x3"), (1280, 960));
    assert_eq!(source_size_of("+7x08"), (7, 8));
    assert_eq!(source_size_of("x480"), (1280, 960));
    assert_eq!(stream_end_message("  \n"), "Camera stream ended before a frame was received");
    assert_eq!(stream_end_message(" device busy\n"), "device busy");
}

#[test]
fn stream_events_follow_the_stream() {
    let mut app = CellSight::new();
    assert!(!app.receive(false, StreamEvent::Frame));
    app.begin_stream();
    assert!(app.streaming);
    assert!(!app.receive(true, StreamEvent::Failure("old".to_string())));
    assert!(app.streaming);
    assert!(app.receive(false, StreamEvent::Frame));
    assert_eq!(app.camera_error, None);
    assert!(app.receive(false, StreamEvent::Failure("gone".to_string())));
    assert!(!app.streaming);
    assert_eq!(app.camera_error.as_deref(), Some("gone"));
    app.begin_stream();
    app.stream_failed_to_start("No such file");
    assert!(!app.streaming);
    assert_eq!(app.camera_error.as_deref(), Some("Could not start ffmpeg: No such file"));
    app.begin_stream();
    app.stop_camera();
    assert!(!app.streaming);
}

#[test]
fn frames_are_retired_one_paint_late() {
    assert_eq!(
        retire_frames(Some(1), None, None),
        FrameHandOff { current: Some(1), previous: None, release: None }
    );
    assert_eq!(
        retire_frames(Some(2), Some(1), None),
        FrameHandOff { current: Some(2), previous: Some(1), release: None }
    );
    assert_eq!(
        retire_frames(Some(3), Some(2), Some(1)),
        FrameHandOff { current: Some(3), previous: Some(2), release: Some(1) }
    );
    assert_eq!(
        retire_frames(Some(3), Some(3), Some(2)),
        FrameHandOff { current: Some(3), previous: Some(2), release: None }
    );
    assert_eq!(
        retire_frames(Some(4), Some(3), Some(3)),
        FrameHandOff { current: Some(4), previous: Some(3), release: None }
    );
    assert_eq!(
        retire_frames(None, Some(3), Some(2)),
        FrameHandOff { current: Some(3), previous: Some(2), release: None }
    );
}

#[test]
fn slider_maps_presses_to_percent() {
    assert_eq!(slider_value(0), 0);
    assert_eq!(slider_value(120), 50);
    assert_eq!(slider_value(239), 99);
    assert_eq!(slider_value(240), 0);
    assert_eq!(slider_value(-1), 99);
    assert_eq!(slider_value(-240), 0);
    assert_eq!(slider_value(i32::MIN), ((i32::MIN).rem_euclid(240) * 100 / 240) as u8);
}
