use cellsight::labels::{
    annotation_count_label, edit_annotation_text, fps_option_label, hint_line, idle_status,
    mode_badge, percent_label, processing_label, viewport_layer, KeyModifiers, ProfileSummary,
    ViewportLayer,
};
use cellsight::shell::CellSight;

#[test]
fn option_and_badge_labels() {
    assert_eq!(fps_option_label(30), "30 fps");
    assert_eq!(fps_option_label(5), "5 fps");
    assert_eq!(mode_badge("2592 × 1944", 30), "2592 × 1944  •  30 fps");
    assert_eq!(processing_label(42), "Processing depth profile… 42%");
}

#[test]
fn annotation_counter_pluralizes() {
    assert_eq!(annotation_count_label(0), "0 annotations");
    assert_eq!(annotation_count_label(1), "1 annotation");
    assert_eq!(annotation_count_label(12), "12 annotations");
}

#[test]
fn idle_status_follows_the_stream() {
    let mut app = CellSight::new();
    assert_eq!(idle_status(&app), "Connect a camera to begin");
    app.begin_stream();
    assert_eq!(idle_status(&app), "Opening camera…");
    app.stream_failed_to_start("busy");
    assert_eq!(idle_status(&app), "Could not start ffmpeg: busy");
}

#[test]
fn hint_line_describes_the_focus_workflow() {
    assert_eq!(hint_line(true, 7, true, None), "Sweep focus steadily through Z · 7 planes");
    assert_eq!(
        hint_line(false, 0, true, None),
        "Drag over the specimen to select the depth-analysis region"
    );
    let profile = ProfileSummary { planes: 12, width: 320, height: 240, plane_limited: false };
    assert_eq!(
        hint_line(false, 12, false, Some(profile)),
        "Focus profile · 12 planes · 320 × 240 analysis"
    );
    let limited = ProfileSummary { plane_limited: true, ..profile };
    assert_eq!(
        hint_line(false, 12, false, Some(limited)),
        "Focus profile · 12 planes · 320 × 240 · memory limit reached; select a smaller region for complete Z coverage"
    );
    assert_eq!(hint_line(false, 0, false, None), "Draw directly on the live view to annotate");
}

#[test]
fn slider_value_label() {
    assert_eq!(percent_label(64), "64%");
    assert_eq!(percent_label(0), "0%");
}

#[test]
fn viewport_layer_prefers_comparison_then_profile_then_camera() {
    assert_eq!(viewport_layer(true, true, true, true, true), ViewportLayer::Comparison);
    assert_eq!(viewport_layer(true, true, false, true, true), ViewportLayer::FocusFrame);
    assert_eq!(viewport_layer(false, true, true, false, true), ViewportLayer::CameraFrame);
    assert_eq!(viewport_layer(false, false, false, false, false), ViewportLayer::Status);
}

#[test]
fn typing_edits_only_the_annotation_being_edited() {
    let none = KeyModifiers { control: false, platform: false, alt: false };
    assert_eq!(edit_annotation_text("cell", Some(2), 2, "s", Some("s"), none), ("cells".to_string(), Some(2)));
    assert_eq!(edit_annotation_text("cell", Some(1), 2, "s", Some("s"), none), ("cell".to_string(), Some(1)));
    assert_eq!(edit_annotation_text("cell", Some(2), 2, "backspace", None, none), ("cel".to_string(), Some(2)));
    assert_eq!(edit_annotation_text("", Some(2), 2, "backspace", None, none), ("".to_string(), Some(2)));
    assert_eq!(edit_annotation_text("cell", Some(2), 2, "enter", None, none), ("cell".to_string(), None));
    let alt = KeyModifiers { alt: true, ..none };
    assert_eq!(edit_annotation_text("cell", Some(2), 2, "s", Some("ß"), alt), ("cell".to_string(), Some(2)));
    let control = KeyModifiers { control: true, ..none };
    assert_eq!(edit_annotation_text("cell", Some(2), 2, "enter", None, control), ("cell".to_string(), Some(2)));
}
