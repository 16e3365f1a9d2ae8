//! The interaction state of the CellSight shell: its defaults, the capture
//! dropdowns, the camera stream's life cycle, the frame hand-over to the
//! renderer and the slider gesture.

use vstd::prelude::*;
use crate::camera::{
    camera_device, capture_args, capture_plan, ffmpeg_format, preview_dims,
    preview_fits, scale_filter, source_size, video_size_text, CapturePlan,
};
use crate::text::decimal_text;

verus! {

/// The annotation tools.
#[derive(Clone, Copy, Debug, PartialEq, Eq, Structural)]
pub enum Tool {
    Pointer,
    Pen,
    Ruler,
}

/// The capture dropdowns of the side panel.
#[derive(Clone, Copy, Debug, PartialEq, Eq, Structural)]
pub enum Dropdown {
    Camera,
    Format,
    Resolution,
    FrameRate,
}

/// What the shell shows and lets the user choose. The frames and the
/// capture process themselves live with the window.
pub struct CellSight {
    pub camera_open: bool,
    pub capture_open: bool,
    pub controls_open: bool,
    pub open_dropdown: Option<Dropdown>,
    pub cameras: Vec<String>,
    pub camera: usize,
    pub formats: Vec<String>,
    pub format: usize,
    pub resolutions: Vec<String>,
    pub resolution: usize,
    pub fps_values: Vec<u16>,
    pub fps: usize,
    pub exposure: u8,
    pub gain: u8,
    pub streaming: bool,
    pub camera_error: Option<String>,
    pub recording: bool,
    pub tool: Tool,
    pub drawing: bool,
}

/// The number of options a dropdown offers.
pub open spec fn option_count(app: &CellSight, d: Dropdown) -> nat {
    match d {
        Dropdown::Camera => app.cameras.len() as nat,
        Dropdown::Format => app.formats.len() as nat,
        Dropdown::Resolution => app.resolutions.len() as nat,
        Dropdown::FrameRate => app.fps_values.len() as nat,
    }
}

/// The option a dropdown has selected.
pub open spec fn selected_option(app: &CellSight, d: Dropdown) -> usize {
    match d {
        Dropdown::Camera => app.camera,
        Dropdown::Format => app.format,
        Dropdown::Resolution => app.resolution,
        Dropdown::FrameRate => app.fps,
    }
}

/// The sections, option lists, image controls and annotation state are equal.
pub open spec fn same_settings(a: &CellSight, b: &CellSight) -> bool {
    &&& a.camera_open == b.camera_open
    &&& a.capture_open == b.capture_open
    &&& a.controls_open == b.controls_open
    &&& a.cameras@ == b.cameras@
    &&& a.formats@ == b.formats@
    &&& a.resolutions@ == b.resolutions@
    &&& a.fps_values@ == b.fps_values@
    &&& a.exposure == b.exposure
    &&& a.gain == b.gain
    &&& a.recording == b.recording
    &&& a.tool == b.tool
    &&& a.drawing == b.drawing
}

/// Everything that is not about the capture stream or the open dropdown is equal.
pub open spec fn same_choices(a: &CellSight, b: &CellSight) -> bool {
    &&& same_settings(a, b)
    &&& a.camera == b.camera
    &&& a.format == b.format
    &&& a.resolution == b.resolution
    &&& a.fps == b.fps
}

/// What a capture plan holds for the given camera, format, resolution and rate.
pub open spec fn plans_capture(
    plan: &CapturePlan,
    camera: Seq<char>,
    format: Seq<char>,
    resolution: Seq<char>,
    fps: u16,
) -> bool {
    let (sw, sh) = source_size(video_size_text(resolution));
    let (pw, ph) = preview_dims(sw, sh);
    &&& plan.program@ == "ffmpeg"@
    &&& plan.device@ == camera_device(camera)
    &&& plan.video_size@ == video_size_text(resolution)
    &&& plan.preview_width == pw
    &&& plan.preview_height == ph
    &&& plan.frame_byte_len == pw * ph * 4
    &&& plan.args.deep_view() == capture_args(
        ffmpeg_format(format),
        video_size_text(resolution),
        decimal_text(fps as nat),
        camera_device(camera),
        scale_filter(pw, ph),
    )
}

/// What the stream reports to the shell.
pub enum StreamEvent {
    /// A new preview frame arrived.
    Frame,
    /// The stream failed with this message.
    Failure(String),
}

impl CellSight {
    /// Every dropdown selects one of its options.
    pub open spec fn well_formed(&self) -> bool {
        &&& self.camera < self.cameras.len()
        &&& self.format < self.formats.len()
        &&& self.resolution < self.resolutions.len()
        &&& self.fps < self.fps_values.len()
    }

    /// The shell as it opens: every section expanded, the USB microscope in
    /// MJPG at its largest resolution and 30 fps, not streaming, pen selected.
    pub fn new() -> (app: Self)
        ensures
            app.well_formed(),
            app.camera_open && app.capture_open && app.controls_open,
            app.open_dropdown is None,
            app.cameras.deep_view() == seq!["Integrated Camera"@, "USB Microscope · /dev/video0"@],
            app.camera == 1,
            app.formats.deep_view() == seq!["MJPG"@, "YUYV"@],
            app.format == 0,
            app.resolutions.deep_view() == seq!["2592 × 1944"@, "1280 × 960"@, "640 × 480"@],
            app.resolution == 0,
            app.fps_values@ == seq![30u16, 25, 20, 15, 10, 5],
            app.fps == 0,
            app.exposure == 64,
            app.gain == 28,
            !app.streaming,
            app.camera_error is None,
            !app.recording,
            app.tool == Tool::Pen,
            !app.drawing,
    {
        let mut cameras: Vec<String> = Vec::new();
        cameras.push(String::from_str("Integrated Camera"));
        cameras.push(String::from_str("USB Microscope · /dev/video0"));
        let mut formats: Vec<String> = Vec::new();
        formats.push(String::from_str("MJPG"));
        formats.push(String::from_str("YUYV"));
        let mut resolutions: Vec<String> = Vec::new();
        resolutions.push(String::from_str("2592 × 1944"));
        resolutions.push(String::from_str("1280 × 960"));
        resolutions.push(String::from_str("640 × 480"));
        let mut fps_values: Vec<u16> = Vec::new();
        fps_values.push(30);
        fps_values.push(25);
        fps_values.push(20);
        fps_values.push(15);
        fps_values.push(10);
        fps_values.push(5);
        let app = CellSight {
            camera_open: true,
            capture_open: true,
            controls_open: true,
            open_dropdown: None,
            cameras,
            camera: 1,
            formats,
            format: 0,
            resolutions,
            resolution: 0,
            fps_values,
            fps: 0,
            exposure: 64,
            gain: 28,
            streaming: false,
            camera_error: None,
            recording: false,
            tool: Tool::Pen,
            drawing: false,
        };
        assert(app.cameras.deep_view() =~= seq!["Integrated Camera"@, "USB Microscope · /dev/video0"@]);
        assert(app.formats.deep_view() =~= seq!["MJPG"@, "YUYV"@]);
        assert(app.resolutions.deep_view() =~= seq!["2592 × 1944"@, "1280 × 960"@, "640 × 480"@]);
        assert(app.fps_values@ =~= seq![30u16, 25, 20, 15, 10, 5]);
        app
    }

    /// Opens dropdown `d`, or closes it when it is the one open.
    pub fn toggle_dropdown(&mut self, d: Dropdown)
        ensures
            final(self).open_dropdown == (if old(self).open_dropdown == Some(d) {
                None
            } else {
                Some(d)
            }),
            same_choices(&*final(self), &*old(self)),
            final(self).streaming == old(self).streaming,
            final(self).camera_error == old(self).camera_error,
    {
        self.open_dropdown = if self.open_dropdown == Some(d) {
            None
        } else {
            Some(d)
        };
    }

    /// Picks option `index` of dropdown `d` and closes the menu.
    pub fn select_option(&mut self, d: Dropdown, index: usize)
        requires
            index < option_count(&*old(self), d),
        ensures
            selected_option(&*final(self), d) == index,
            forall|other: Dropdown|
                other != d ==> selected_option(&*final(self), other) == selected_option(
                    &*old(self),
                    other,
                ),
            final(self).open_dropdown is None,
            same_settings(&*final(self), &*old(self)),
            final(self).streaming == old(self).streaming,
            final(self).camera_error == old(self).camera_error,
            old(self).well_formed() ==> final(self).well_formed(),
    {
        match d {
            Dropdown::Camera => self.camera = index,
            Dropdown::Format => self.format = index,
            Dropdown::Resolution => self.resolution = index,
            Dropdown::FrameRate => self.fps = index,
        }
        self.open_dropdown = None;
    }

    /// How to start capturing with the current choices.
    pub fn capture_plan(&self) -> (plan: CapturePlan)
        requires
            self.well_formed(),
            preview_fits(self.resolutions@[self.resolution as int]@),
        ensures
            plans_capture(
                &plan,
                self.cameras@[self.camera as int]@,
                self.formats@[self.format as int]@,
                self.resolutions@[self.resolution as int]@,
                self.fps_values@[self.fps as int],
            ),
    {
        capture_plan(
            self.cameras[self.camera].as_str(),
            self.formats[self.format].as_str(),
            self.resolutions[self.resolution].as_str(),
            self.fps_values[self.fps],
        )
    }

    /// A capture starts: the shell streams and forgets the last error.
    pub fn begin_stream(&mut self)
        ensures
            final(self).streaming,
            final(self).camera_error is None,
            final(self).open_dropdown == old(self).open_dropdown,
            same_choices(&*final(self), &*old(self)),
    {
        self.stop_camera();
        self.streaming = true;
        self.camera_error = None;
    }

    /// `ffmpeg` could not be started: streaming ends and the error is shown.
    pub fn stream_failed_to_start(&mut self, error: &str)
        ensures
            !final(self).streaming,
            final(self).camera_error matches Some(e) && e@ == "Could not start ffmpeg: "@ + error@,
            final(self).open_dropdown == old(self).open_dropdown,
            same_choices(&*final(self), &*old(self)),
    {
        self.streaming = false;
        let mut message = String::from_str("Could not start ffmpeg: ");
        message.append(error);
        self.camera_error = Some(message);
    }

    /// Takes one stream event. Events of a cancelled stream, or arriving
    /// while the shell is not streaming, change nothing. A frame clears the
    /// error; a failure shows its message and ends streaming. Returns whether
    /// the event was taken, so the window knows to store the frame and redraw.
    pub fn receive(&mut self, cancelled: bool, event: StreamEvent) -> (taken: bool)
        ensures
            taken == (!cancelled && old(self).streaming),
            !taken ==> final(self).streaming == old(self).streaming && final(self).camera_error
                == old(self).camera_error,
            taken ==> match event {
                StreamEvent::Frame => final(self).streaming && final(self).camera_error is None,
                StreamEvent::Failure(message) => !final(self).streaming
                    && final(self).camera_error == Some(message),
            },
            final(self).open_dropdown == old(self).open_dropdown,
            same_choices(&*final(self), &*old(self)),
    {
        if cancelled || !self.streaming {
            return false;
        }
        match event {
            StreamEvent::Frame => {
                self.camera_error = None;
            },
            StreamEvent::Failure(message) => {
                self.camera_error = Some(message);
                self.streaming = false;
            },
        }
        true
    }

    /// The capture stops.
    pub fn stop_camera(&mut self)
        ensures
            !final(self).streaming,
            final(self).camera_error == old(self).camera_error,
            final(self).open_dropdown == old(self).open_dropdown,
            same_choices(&*final(self), &*old(self)),
    {
        self.streaming = false;
    }
}


/// The frames the renderer holds after a paint: the one it shows, the one
/// it showed before (the GPU may still read it), and one it may release.
#[derive(Clone, Copy, Debug, PartialEq, Eq, Structural)]
pub struct FrameHandOff {
    pub current: Option<usize>,
    pub previous: Option<usize>,
    pub release: Option<usize>,
}

/// Which frames the renderer keeps when `latest` is the newest camera frame
/// and it holds `current` and `previous`: a new frame becomes current, the
/// current one becomes previous, and the old previous is released unless it
/// is the current one again.
pub open spec fn hand_off(
    latest: Option<usize>,
    current: Option<usize>,
    previous: Option<usize>,
) -> FrameHandOff {
    if latest is Some && current != latest {
        match current {
            Some(c) => FrameHandOff {
                current: latest,
                previous: Some(c),
                release: if previous is Some && previous != Some(c) {
                    previous
                } else {
                    None
                },
            },
            None => FrameHandOff { current: latest, previous, release: None },
        }
    } else {
        FrameHandOff { current, previous, release: None }
    }
}

/// Retires painted frames; see [`hand_off`].
pub fn retire_frames(
    latest: Option<usize>,
    current: Option<usize>,
    previous: Option<usize>,
) -> (r: FrameHandOff)
    ensures
        r == hand_off(latest, current, previous),
{
    match latest {
        Some(l) => {
            let is_current = match current {
                Some(c) => c == l,
                None => false,
            };
            if is_current {
                return FrameHandOff { current, previous, release: None };
            }
            match current {
                Some(c) => {
                    let release = match previous {
                        Some(p) => if p != c {
                            Some(p)
                        } else {
                            None
                        },
                        None => None,
                    };
                    FrameHandOff { current: latest, previous: Some(c), release }
                },
                None => FrameHandOff { current: latest, previous, release: None },
            }
        },
        None => FrameHandOff { current, previous, release: None },
    }
}

/// A new frame is shown at once, the frame it replaces is kept one more
/// paint, and a released frame is never one the renderer goes on holding,
/// unless the newest frame is the one that was previous.
pub proof fn frame_hand_off_keeps_live_frames(
    latest: Option<usize>,
    current: Option<usize>,
    previous: Option<usize>,
)
    ensures
        latest is Some ==> hand_off(latest, current, previous).current == latest,
        latest is Some && current is Some && current != latest ==> hand_off(
            latest,
            current,
            previous,
        ).previous == current,
        hand_off(latest, current, previous).release is Some ==> hand_off(
            latest,
            current,
            previous,
        ).release != hand_off(latest, current, previous).previous,
        hand_off(latest, current, previous).release is Some && previous != latest ==> hand_off(
            latest,
            current,
            previous,
        ).release != hand_off(latest, current, previous).current,
        hand_off(latest, current, previous).release is Some ==> hand_off(
            latest,
            current,
            previous,
        ).release == previous,
{
}

/// The width, in pixels, that the slider track maps onto 0..100.
pub const SLIDER_TRACK: i32 = 240;

/// The value a press at horizontal offset `x` gives a slider: the offset
/// wrapped into the track and scaled to a percentage.
pub open spec fn slider_percent(x: int) -> int {
    (x % 240) * 100 / 240
}

/// The slider value of a press; see [`slider_percent`].
pub fn slider_value(x: i32) -> (v: u8)
    ensures
        v == slider_percent(x as int),
        v < 100,
{
    let wrapped: i32 = if x >= 0 {
        x % SLIDER_TRACK
    } else {
        let m = (-(x + 1)) % SLIDER_TRACK;
        assert((x as int) % 240 == 239 - m);
        239 - m
    };
    (wrapped * 100 / SLIDER_TRACK) as u8
}

} // verus!
