//! The texts the shell writes about its state (option labels, the mode
//! badge, the status lines of the viewport), the layer the viewport draws
//! and how typing edits a text annotation.

use vstd::prelude::*;
use crate::shell::CellSight;
use crate::text::{chars_of, decimal_text, push_decimal, str_equals, string_of};

verus! {

/// A frame-rate option as the rate menu lists it, such as `30 fps`.
pub open spec fn fps_text(fps: u16) -> Seq<char> {
    decimal_text(fps as nat) + " fps"@
}

/// Writes a frame-rate option; see [`fps_text`].
pub fn fps_option_label(fps: u16) -> (s: String)
    ensures
        s@ == fps_text(fps),
{
    let mut s = String::new();
    push_decimal(&mut s, fps as u64);
    s.append(" fps");
    s
}

/// The badge in the viewport's corner: resolution and frame rate.
pub open spec fn mode_badge_text(resolution: Seq<char>, fps: u16) -> Seq<char> {
    resolution + "  •  "@ + fps_text(fps)
}

/// Writes the mode badge; see [`mode_badge_text`].
pub fn mode_badge(resolution: &str, fps: u16) -> (s: String)
    ensures
        s@ == mode_badge_text(resolution@, fps),
{
    let mut s = String::from_str(resolution);
    s.append("  •  ");
    let rate = fps_option_label(fps);
    s.append(rate.as_str());
    s
}

/// What the viewport says while no frame is shown: the camera's error, or
/// whether a camera is opening or still to be connected.
pub open spec fn idle_text(app: &CellSight) -> Seq<char> {
    match app.camera_error {
        Some(e) => e@,
        None => if app.streaming {
            "Opening camera…"@
        } else {
            "Connect a camera to begin"@
        },
    }
}

/// Writes the idle status; see [`idle_text`].
pub fn idle_status(app: &CellSight) -> (s: String)
    ensures
        s@ == idle_text(app),
{
    match &app.camera_error {
        Some(e) => e.clone(),
        None => if app.streaming {
            String::from_str("Opening camera…")
        } else {
            String::from_str("Connect a camera to begin")
        },
    }
}

/// The annotation counter: `1 annotation`, otherwise `n annotations`.
pub open spec fn annotation_count_text(n: usize) -> Seq<char> {
    decimal_text(n as nat) + if n == 1 {
        " annotation"@
    } else {
        " annotations"@
    }
}

/// Writes the annotation counter; see [`annotation_count_text`].
pub fn annotation_count_label(n: usize) -> (s: String)
    ensures
        s@ == annotation_count_text(n),
{
    let mut s = String::new();
    push_decimal(&mut s, n as u64);
    if n == 1 {
        s.append(" annotation");
    } else {
        s.append(" annotations");
    }
    s
}

/// What a finished depth profile reports about itself.
#[derive(Clone, Copy, Debug, PartialEq, Eq, Structural)]
pub struct ProfileSummary {
    pub planes: usize,
    pub width: u32,
    pub height: u32,
    pub plane_limited: bool,
}

/// The hint along the viewport's bottom edge: the sweep in progress, the
/// region selection, the finished profile (warning when the memory budget
/// cut planes), or how to annotate.
pub open spec fn hint_text(
    recording: bool,
    sweep_planes: usize,
    selecting_region: bool,
    profile: Option<ProfileSummary>,
) -> Seq<char> {
    if recording {
        "Sweep focus steadily through Z · "@ + decimal_text(sweep_planes as nat) + " planes"@
    } else if selecting_region {
        "Drag over the specimen to select the depth-analysis region"@
    } else {
        match profile {
            Some(p) => {
                let size = "Focus profile · "@ + decimal_text(p.planes as nat) + " planes · "@
                    + decimal_text(p.width as nat) + " × "@ + decimal_text(p.height as nat);
                if p.plane_limited {
                    size + " · memory limit reached; select a smaller region for complete Z coverage"@
                } else {
                    size + " analysis"@
                }
            },
            None => "Draw directly on the live view to annotate"@,
        }
    }
}

/// Writes the viewport hint; see [`hint_text`].
pub fn hint_line(
    recording: bool,
    sweep_planes: usize,
    selecting_region: bool,
    profile: Option<ProfileSummary>,
) -> (s: String)
    ensures
        s@ == hint_text(recording, sweep_planes, selecting_region, profile),
{
    if recording {
        let mut s = String::from_str("Sweep focus steadily through Z · ");
        push_decimal(&mut s, sweep_planes as u64);
        s.append(" planes");
        return s;
    }
    if selecting_region {
        return String::from_str("Drag over the specimen to select the depth-analysis region");
    }
    match profile {
        Some(p) => {
            let mut s = String::from_str("Focus profile · ");
            push_decimal(&mut s, p.planes as u64);
            s.append(" planes · ");
            push_decimal(&mut s, p.width as u64);
            s.append(" × ");
            push_decimal(&mut s, p.height as u64);
            if p.plane_limited {
                s.append(" · memory limit reached; select a smaller region for complete Z coverage");
            } else {
                s.append(" analysis");
            }
            s
        },
        None => String::from_str("Draw directly on the live view to annotate"),
    }
}

/// The progress line shown while a depth profile is computed.
pub open spec fn processing_text(percent: u32) -> Seq<char> {
    "Processing depth profile… "@ + decimal_text(percent as nat) + "%"@
}

/// Writes the progress line; see [`processing_text`].
pub fn processing_label(percent: u32) -> (s: String)
    ensures
        s@ == processing_text(percent),
{
    let mut s = String::from_str("Processing depth profile… ");
    push_decimal(&mut s, percent as u64);
    s.append("%");
    s
}


/// A slider's value as its label shows it, such as `64%`.
pub open spec fn percent_text(value: u8) -> Seq<char> {
    decimal_text(value as nat) + "%"@
}

/// Writes a slider's value label; see [`percent_text`].
pub fn percent_label(value: u8) -> (s: String)
    ensures
        s@ == percent_text(value),
{
    let mut s = String::new();
    push_decimal(&mut s, value as u64);
    s.append("%");
    s
}

/// What the viewport draws under the annotations.
#[derive(Clone, Copy, Debug, PartialEq, Eq, Structural)]
pub enum ViewportLayer {
    /// The two comparison images side by side around the split.
    Comparison,
    /// An image of the finished depth profile.
    FocusFrame,
    /// The live camera frame.
    CameraFrame,
    /// The idle status text.
    Status,
}

/// The viewport's layer: the comparison when it is on and both its images
/// exist, else the profile image, else the camera frame, else the status.
pub open spec fn layer_of(
    comparison_enabled: bool,
    has_left: bool,
    has_right: bool,
    has_focus_frame: bool,
    has_camera_frame: bool,
) -> ViewportLayer {
    if comparison_enabled && has_left && has_right {
        ViewportLayer::Comparison
    } else if has_focus_frame {
        ViewportLayer::FocusFrame
    } else if has_camera_frame {
        ViewportLayer::CameraFrame
    } else {
        ViewportLayer::Status
    }
}

/// Chooses the viewport's layer; see [`layer_of`].
pub fn viewport_layer(
    comparison_enabled: bool,
    has_left: bool,
    has_right: bool,
    has_focus_frame: bool,
    has_camera_frame: bool,
) -> (l: ViewportLayer)
    ensures
        l == layer_of(comparison_enabled, has_left, has_right, has_focus_frame, has_camera_frame),
{
    if comparison_enabled && has_left && has_right {
        ViewportLayer::Comparison
    } else if has_focus_frame {
        ViewportLayer::FocusFrame
    } else if has_camera_frame {
        ViewportLayer::CameraFrame
    } else {
        ViewportLayer::Status
    }
}

/// The modifier keys held during a key press.
#[derive(Clone, Copy, Debug, PartialEq, Eq, Structural)]
pub struct KeyModifiers {
    pub control: bool,
    pub platform: bool,
    pub alt: bool,
}

/// How a key press changes a text annotation being typed: only the
/// annotation being edited takes keys, and none with control or the
/// platform key held; `backspace` deletes the last character, `enter` ends
/// editing, and other keys append their characters unless alt is held.
pub open spec fn annotation_key(
    text: Seq<char>,
    editing: Option<usize>,
    index: usize,
    key: Seq<char>,
    key_char: Option<Seq<char>>,
    modifiers: KeyModifiers,
) -> (Seq<char>, Option<usize>) {
    if editing != Some(index) || modifiers.control || modifiers.platform {
        (text, editing)
    } else if key == "backspace"@ {
        (if text.len() > 0 { text.drop_last() } else { text }, editing)
    } else if key == "enter"@ {
        (text, None)
    } else {
        match key_char {
            Some(typed) => if modifiers.alt {
                (text, editing)
            } else {
                (text + typed, editing)
            },
            None => (text, editing),
        }
    }
}

/// Applies a key press to annotation `index`, whose text is `text`, while
/// `editing` is the annotation being typed; see [`annotation_key`].
pub fn edit_annotation_text(
    text: &str,
    editing: Option<usize>,
    index: usize,
    key: &str,
    key_char: Option<&str>,
    modifiers: KeyModifiers,
) -> (r: (String, Option<usize>))
    ensures
        (r.0@, r.1) == annotation_key(
            text@,
            editing,
            index,
            key@,
            match key_char {
                Some(k) => Some(k@),
                None => None,
            },
            modifiers,
        ),
{
    let unchanged = String::from_str(text);
    if editing != Some(index) || modifiers.control || modifiers.platform {
        return (unchanged, editing);
    }
    if str_equals(key, "backspace") {
        let v = chars_of(text);
        if v.len() > 0 {
            assert(v@.subrange(0, v.len() - 1) =~= v@.drop_last());
            return (string_of(&v, 0, v.len() - 1), editing);
        }
        return (unchanged, editing);
    }
    if str_equals(key, "enter") {
        return (unchanged, None);
    }
    match key_char {
        Some(typed) => if modifiers.alt {
            (unchanged, editing)
        } else {
            let mut joined = unchanged;
            joined.append(typed);
            (joined, editing)
        },
        None => (unchanged, editing),
    }
}

} // verus!
