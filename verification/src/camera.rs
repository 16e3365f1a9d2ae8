//! Planning the capture stream of a V4L2 camera through `ffmpeg`, and the
//! rules that turn stream events into what the shell shows.

use vstd::prelude::*;
use crate::picker::starts_with;
use crate::text::{
    chars_of, decimal_text, parse_decimal, parse_decimal_range, push_char, push_decimal, split,
    split_ranges, str_equals, string_of, trim, trim_range,
};

verus! {

/// The device a camera entry names: the text after its first `·`, trimmed,
/// when that text is a `/dev/video` path; `/dev/video0` otherwise.
pub open spec fn camera_device(name: Seq<char>) -> Seq<char> {
    let parts = split(name, '·');
    if parts.len() >= 2 && starts_with(trim(parts[1]), "/dev/video"@) {
        trim(parts[1])
    } else {
        "/dev/video0"@
    }
}

/// Whether `v[lo..hi]` begins with `p`.
fn range_starts_with(v: &Vec<char>, lo: usize, hi: usize, p: &Vec<char>) -> (b: bool)
    requires
        lo <= hi <= v.len(),
    ensures
        b == starts_with(v@.subrange(lo as int, hi as int), p@),
{
    let ghost s = v@.subrange(lo as int, hi as int);
    if hi - lo < p.len() {
        return false;
    }
    let mut i: usize = 0;
    while i < p.len()
        invariant
            lo <= hi <= v.len(),
            s == v@.subrange(lo as int, hi as int),
            p.len() <= hi - lo,
            i <= p.len(),
            forall|j: int| 0 <= j < i ==> s[j] == #[trigger] p@[j],
        decreases p.len() - i,
    {
        if v[lo + i] != p[i] {
            assert(s.take(p.len() as int)[i as int] != p@[i as int]);
            return false;
        }
        i += 1;
    }
    assert(s.take(p.len() as int) =~= p@);
    true
}

/// The device to capture from; see [`camera_device`].
pub fn device_for(name: &str) -> (d: String)
    ensures
        d@ == camera_device(name@),
{
    let v = chars_of(name);
    assert(v@.subrange(0, v.len() as int) =~= name@);
    let ranges = split_ranges(&v, 0, v.len(), '·');
    if ranges.len() >= 2 {
        let (a, b) = trim_range(&v, ranges[1].0, ranges[1].1);
        let prefix = chars_of("/dev/video");
        if range_starts_with(&v, a, b, &prefix) {
            return string_of(&v, a, b);
        }
    }
    String::from_str("/dev/video0")
}

/// A resolution label as `ffmpeg -video_size` takes it: `×` becomes `x` and
/// spaces are dropped, so `2592 × 1944` becomes `2592x1944`.
pub open spec fn video_size_text(label: Seq<char>) -> Seq<char>
    decreases label.len(),
{
    if label.len() == 0 {
        Seq::empty()
    } else {
        let c = label.last();
        video_size_text(label.drop_last()) + if c == '×' {
            seq!['x']
        } else if c == ' ' {
            Seq::empty()
        } else {
            seq![c]
        }
    }
}

/// The `-video_size` argument of a resolution label; see [`video_size_text`].
pub fn video_size_arg(label: &str) -> (s: String)
    ensures
        s@ == video_size_text(label@),
{
    let v = chars_of(label);
    let mut s = String::new();
    let mut i: usize = 0;
    while i < v.len()
        invariant
            v@ == label@,
            i <= v.len(),
            s@ == video_size_text(v@.take(i as int)),
        decreases v.len() - i,
    {
        assert(v@.take(i + 1).drop_last() =~= v@.take(i as int));
        let c = v[i];
        if c == '×' {
            push_char(&mut s, 'x');
        } else if c != ' ' {
            push_char(&mut s, c);
        }
        assert(s@ =~= video_size_text(v@.take(i + 1)));
        i += 1;
    }
    assert(v@.take(v.len() as int) =~= v@);
    s
}

/// The frame size a `-video_size` argument asks for: the numbers before and
/// after its first `x`, or 1280 × 960 when it does not spell two `u32`s.
pub open spec fn source_size(arg: Seq<char>) -> (u32, u32) {
    let parts = split(arg, 'x');
    if parts.len() >= 2 {
        let w = parse_decimal(parts[0], u32::MAX as nat);
        let h = parse_decimal(arg.skip(parts[0].len() as int + 1), u32::MAX as nat);
        if w is Some && h is Some {
            (w->0 as u32, h->0 as u32)
        } else {
            (1280, 960)
        }
    } else {
        (1280, 960)
    }
}

/// The first piece of a split starts the text, and when the text holds the
/// separator, the piece ends right before its first occurrence.
pub proof fn lemma_split_first_piece(v: Seq<char>, sep: char)
    ensures
        split(v, sep).len() >= 1,
        split(v, sep)[0] == v.take(split(v, sep)[0].len() as int),
        split(v, sep)[0].len() <= v.len(),
        split(v, sep).len() >= 2 ==> split(v, sep)[0].len() < v.len() && v[split(v, sep)[0].len() as int] == sep,
    decreases v.len(),
{
    crate::text::lemma_split_nonempty(v, sep);
    if v.len() > 0 {
        let init = v.drop_last();
        lemma_split_first_piece(init, sep);
        crate::text::lemma_split_nonempty(init, sep);
        let p = split(init, sep);
        if v.last() == sep {
            assert(split(v, sep)[0] == p[0]);
            assert(v.take(p[0].len() as int) =~= init.take(p[0].len() as int));
            if p.len() >= 2 {
                assert(v[p[0].len() as int] == init[p[0].len() as int]);
            } else {
                assert(p[0].len() == init.len()) by {
                    assert(init.take(p[0].len() as int).len() == p[0].len());
                    lemma_single_piece_is_all(init, sep);
                }
            }
        } else {
            if p.len() >= 2 {
                assert(split(v, sep)[0] == p[0]);
                assert(v.take(p[0].len() as int) =~= init.take(p[0].len() as int));
                assert(v[p[0].len() as int] == init[p[0].len() as int]);
            } else {
                lemma_single_piece_is_all(init, sep);
                assert(split(v, sep)[0] == p[0].push(v.last()));
                assert(v.take(v.len() as int) =~= v);
                assert(p[0].push(v.last()) =~= v);
            }
        }
    }
}

/// A text without the separator splits into itself alone.
pub proof fn lemma_single_piece_is_all(v: Seq<char>, sep: char)
    requires
        split(v, sep).len() == 1,
    ensures
        split(v, sep)[0] == v,
    decreases v.len(),
{
    if v.len() > 0 {
        let init = v.drop_last();
        crate::text::lemma_split_nonempty(init, sep);
        if v.last() == sep {
        } else {
            lemma_single_piece_is_all(init, sep);
            assert(init.push(v.last()) =~= v);
        }
    } else {
        assert(split(v, sep)[0] =~= v);
    }
}


/// No piece of a split holds the separator.
pub proof fn lemma_split_pieces_lack_separator(v: Seq<char>, sep: char)
    ensures
        forall|k: int, j: int|
            0 <= k < split(v, sep).len() && 0 <= j < split(v, sep)[k].len() ==> #[trigger] split(
                v,
                sep,
            )[k][j] != sep,
    decreases v.len(),
{
    if v.len() > 0 {
        let init = v.drop_last();
        lemma_split_pieces_lack_separator(init, sep);
        crate::text::lemma_split_nonempty(init, sep);
        let p = split(init, sep);
        let q = split(v, sep);
        assert forall|k: int, j: int| 0 <= k < q.len() && 0 <= j < q[k].len() implies #[trigger] q[k][j]
            != sep by {
            if v.last() == sep {
                if k < p.len() {
                    assert(q[k] == p[k]);
                }
            } else {
                if k < p.len() - 1 {
                    assert(q[k] == p[k]);
                } else {
                    assert(q[k] == p[k].push(v.last()));
                    if j < p[k].len() {
                        assert(q[k][j] == p[k][j]);
                    }
                }
            }
        }
    }
}

/// Where the first `sep` in `v` sits, if anywhere: the length of the first piece of the split.
pub fn find_separator(v: &Vec<char>, sep: char) -> (r: Option<usize>)
    ensures
        match r {
            Some(i) => split(v@, sep).len() >= 2 && i == split(v@, sep)[0].len() && i < v.len(),
            None => split(v@, sep).len() == 1,
        },
{
    proof {
        lemma_split_first_piece(v@, sep);
        lemma_split_pieces_lack_separator(v@, sep);
    }
    let ghost parts = split(v@, sep);
    let mut i: usize = 0;
    while i < v.len()
        invariant
            i <= v.len(),
            parts == split(v@, sep),
            forall|j: int| 0 <= j < i ==> v@[j] != sep,
        decreases v.len() - i,
    {
        if v[i] == sep {
            proof {
                lemma_split_first_piece(v@, sep);
                lemma_split_pieces_lack_separator(v@, sep);
                let l = parts[0].len() as int;
                if parts.len() == 1 {
                    lemma_single_piece_is_all(v@, sep);
                    assert(parts[0][i as int] == sep);
                } else {
                    if l < i {
                        assert(v@[l] == sep);
                    } else if l > i {
                        assert(parts[0][i as int] == v@.take(l)[i as int]);
                        assert(parts[0][i as int] == sep);
                    }
                }
            }
            return Some(i);
        }
        i += 1;
    }
    proof {
        if parts.len() >= 2 {
            let l = parts[0].len() as int;
            assert(v@[l] == sep);
        }
    }
    None
}

/// The frame size that a `-video_size` argument asks for; see [`source_size`].
pub fn source_size_of(arg: &str) -> (r: (u32, u32))
    ensures
        r == source_size(arg@),
{
    let v = chars_of(arg);
    match find_separator(&v, 'x') {
        None => (1280, 960),
        Some(i) => {
            proof {
                lemma_split_first_piece(v@, 'x');
                assert(v@.subrange(0, i as int) =~= split(v@, 'x')[0]);
                assert(v@.subrange(i + 1, v.len() as int) =~= v@.skip(i + 1));
            }
            let w = parse_decimal_range(&v, 0, i, u32::MAX);
            let h = parse_decimal_range(&v, i + 1, v.len(), u32::MAX);
            match (w, h) {
                (Some(w), Some(h)) => (w, h),
                _ => (1280, 960),
            }
        },
    }
}


/// The `ffmpeg` input format of a capture format label.
pub open spec fn ffmpeg_format(label: Seq<char>) -> Seq<char> {
    if label == "MJPG"@ {
        "mjpeg"@
    } else if label == "YUYV"@ {
        "yuyv422"@
    } else {
        label
    }
}

/// The widest preview the viewport is sent.
pub const PREVIEW_MAX_WIDTH: u32 = 1280;

/// The preview size of a source size: at most [`PREVIEW_MAX_WIDTH`] wide,
/// same aspect ratio, at least one row.
pub open spec fn preview_dims(source_width: u32, source_height: u32) -> (u32, u32) {
    let pw = if source_width <= PREVIEW_MAX_WIDTH { source_width } else { PREVIEW_MAX_WIDTH };
    let ph = (source_height as int) * (pw as int) / (source_width as int);
    (pw, if ph >= 1 { ph as u32 } else { 1 })
}

/// The preview keeps full resolution at the camera but sends the viewport at
/// most [`PREVIEW_MAX_WIDTH`] columns: it is never wider than the source or
/// the limit, never taller than the source (but at least one row), and a
/// source of at least one row within the limit is sent as it is.
pub proof fn preview_never_exceeds_source(source_width: u32, source_height: u32)
    requires
        source_width > 0,
    ensures
        preview_dims(source_width, source_height).0 <= source_width,
        preview_dims(source_width, source_height).0 <= PREVIEW_MAX_WIDTH,
        preview_dims(source_width, source_height).1 <= if source_height >= 1 {
            source_height
        } else {
            1
        },
        source_width <= PREVIEW_MAX_WIDTH && source_height >= 1 ==> preview_dims(source_width, source_height) == (
            source_width,
            source_height,
        ),
{
    let pw: int = if source_width <= PREVIEW_MAX_WIDTH { source_width as int } else { PREVIEW_MAX_WIDTH as int };
    assert((source_height as int) * pw / (source_width as int) <= source_height as int) by (nonlinear_arith)
        requires
            0 <= pw <= source_width,
            0 < source_width,
            0 <= source_height,
    ;
    if source_width <= PREVIEW_MAX_WIDTH {
        assert((source_height as int) * (source_width as int) / (source_width as int) == source_height as int) by (nonlinear_arith)
            requires
                0 < source_width,
        ;
    }
}

/// Whether a resolution label leads to a preview that can be computed: the
/// source width is not zero, the scaling stays within `u32` and a preview
/// frame's byte length fits in `usize`.
pub open spec fn preview_fits(resolution_label: Seq<char>) -> bool {
    let (sw, sh) = source_size(video_size_text(resolution_label));
    let pw = if sw <= PREVIEW_MAX_WIDTH { sw } else { PREVIEW_MAX_WIDTH };
    &&& sw != 0
    &&& sh * pw <= u32::MAX
    &&& preview_dims(sw, sh).0 * preview_dims(sw, sh).1 * 4 <= usize::MAX
}

/// The `ffmpeg` filter that scales the stream to the preview size.
pub open spec fn scale_filter(width: u32, height: u32) -> Seq<char> {
    "scale="@ + decimal_text(width as nat) + ":"@ + decimal_text(height as nat)
        + ":flags=fast_bilinear"@
}

/// The `ffmpeg` arguments that stream a V4L2 device as raw BGRA preview frames on stdout.
pub open spec fn capture_args(
    format: Seq<char>,
    video_size: Seq<char>,
    fps: Seq<char>,
    device: Seq<char>,
    filter: Seq<char>,
) -> Seq<Seq<char>> {
    seq![
        "-hide_banner"@,
        "-loglevel"@,
        "error"@,
        "-fflags"@,
        "nobuffer"@,
        "-flags"@,
        "low_delay"@,
        "-analyzeduration"@,
        "0"@,
        "-probesize"@,
        "32"@,
        "-f"@,
        "v4l2"@,
        "-input_format"@,
        format,
        "-video_size"@,
        video_size,
        "-framerate"@,
        fps,
        "-i"@,
        device,
        "-an"@,
        "-vf"@,
        filter,
        "-pix_fmt"@,
        "bgra"@,
        "-f"@,
        "rawvideo"@,
        "-flush_packets"@,
        "1"@,
        "-"@,
    ]
}

/// How to start a capture: the program and its arguments, and the size of
/// the preview frames it will write.
pub struct CapturePlan {
    pub program: String,
    pub args: Vec<String>,
    pub device: String,
    pub video_size: String,
    pub preview_width: u32,
    pub preview_height: u32,
    pub frame_byte_len: usize,
}

fn push_arg(args: &mut Vec<String>, arg: &str)
    ensures
        final(args).deep_view() == old(args).deep_view().push(arg@),
{
    args.push(String::from_str(arg));
    assert(final(args).deep_view() =~= old(args).deep_view().push(arg@));
}

fn push_owned_arg(args: &mut Vec<String>, arg: String)
    ensures
        final(args).deep_view() == old(args).deep_view().push(arg@),
{
    let ghost view = arg@;
    args.push(arg);
    assert(final(args).deep_view() =~= old(args).deep_view().push(view));
}

/// The `ffmpeg` input format of a capture format label; see [`ffmpeg_format`].
pub fn ffmpeg_format_name(format: &str) -> (s: String)
    ensures
        s@ == ffmpeg_format(format@),
{
    if str_equals(format, "MJPG") {
        String::from_str("mjpeg")
    } else if str_equals(format, "YUYV") {
        String::from_str("yuyv422")
    } else {
        String::from_str(format)
    }
}

/// The scaling filter text; see [`scale_filter`].
pub fn scale_filter_text(width: u32, height: u32) -> (s: String)
    ensures
        s@ == scale_filter(width, height),
{
    let mut filter = String::from_str("scale=");
    push_decimal(&mut filter, width as u64);
    filter.append(":");
    push_decimal(&mut filter, height as u64);
    filter.append(":flags=fast_bilinear");
    filter
}

/// The argument list; see [`capture_args`].
#[verifier::rlimit(40)]
pub fn capture_arguments(
    format: &str,
    video_size: &str,
    fps: &str,
    device: &str,
    filter: &str,
) -> (args: Vec<String>)
    ensures
        args.deep_view() == capture_args(format@, video_size@, fps@, device@, filter@),
{
    let mut args: Vec<String> = Vec::new();
    push_arg(&mut args, "-hide_banner");
    push_arg(&mut args, "-loglevel");
    push_arg(&mut args, "error");
    push_arg(&mut args, "-fflags");
    push_arg(&mut args, "nobuffer");
    push_arg(&mut args, "-flags");
    push_arg(&mut args, "low_delay");
    push_arg(&mut args, "-analyzeduration");
    push_arg(&mut args, "0");
    push_arg(&mut args, "-probesize");
    push_arg(&mut args, "32");
    push_arg(&mut args, "-f");
    push_arg(&mut args, "v4l2");
    push_arg(&mut args, "-input_format");
    push_arg(&mut args, format);
    push_arg(&mut args, "-video_size");
    push_arg(&mut args, video_size);
    push_arg(&mut args, "-framerate");
    push_arg(&mut args, fps);
    push_arg(&mut args, "-i");
    push_arg(&mut args, device);
    push_arg(&mut args, "-an");
    push_arg(&mut args, "-vf");
    push_arg(&mut args, filter);
    push_arg(&mut args, "-pix_fmt");
    push_arg(&mut args, "bgra");
    push_arg(&mut args, "-f");
    push_arg(&mut args, "rawvideo");
    push_arg(&mut args, "-flush_packets");
    push_arg(&mut args, "1");
    push_arg(&mut args, "-");
    assert(args.deep_view() =~= capture_args(format@, video_size@, fps@, device@, filter@));
    args
}

/// Plans the capture of camera entry `camera` in format `format` at
/// resolution `resolution` and `fps` frames per second.
pub fn capture_plan(camera: &str, format: &str, resolution: &str, fps: u16) -> (plan: CapturePlan)
    requires
        preview_fits(resolution@),
    ensures
        plan.program@ == "ffmpeg"@,
        plan.device@ == camera_device(camera@),
        plan.video_size@ == video_size_text(resolution@),
        ({
            let (sw, sh) = source_size(video_size_text(resolution@));
            let (pw, ph) = preview_dims(sw, sh);
            &&& plan.preview_width == pw
            &&& plan.preview_height == ph
            &&& plan.frame_byte_len == pw * ph * 4
            &&& plan.args.deep_view() == capture_args(
                ffmpeg_format(format@),
                video_size_text(resolution@),
                decimal_text(fps as nat),
                camera_device(camera@),
                scale_filter(pw, ph),
            )
        }),
{
    let device = device_for(camera);
    let video_size = video_size_arg(resolution);
    let (source_width, source_height) = source_size_of(video_size.as_str());
    let preview_width = if source_width <= PREVIEW_MAX_WIDTH {
        source_width
    } else {
        PREVIEW_MAX_WIDTH
    };
    let scaled = source_height * preview_width / source_width;
    let preview_height = if scaled >= 1 { scaled } else { 1 };
    let frame_byte_len = preview_width as usize * preview_height as usize * 4;
    let mut fps_text = String::new();
    push_decimal(&mut fps_text, fps as u64);
    assert(fps_text@ =~= decimal_text(fps as nat));
    let format_name = ffmpeg_format_name(format);
    let filter = scale_filter_text(preview_width, preview_height);
    let args = capture_arguments(
        format_name.as_str(),
        video_size.as_str(),
        fps_text.as_str(),
        device.as_str(),
        filter.as_str(),
    );
    CapturePlan {
        program: String::from_str("ffmpeg"),
        args,
        device,
        video_size,
        preview_width,
        preview_height,
        frame_byte_len,
    }
}


/// What the shell shows when the stream ends on its own: what `ffmpeg`
/// wrote to stderr, trimmed, or a fixed message when it wrote nothing.
pub open spec fn stream_end_text(details: Seq<char>) -> Seq<char> {
    if trim(details).len() == 0 {
        "Camera stream ended before a frame was received"@
    } else {
        trim(details)
    }
}

/// The message for a stream that ended; see [`stream_end_text`].
pub fn stream_end_message(details: &str) -> (s: String)
    ensures
        s@ == stream_end_text(details@),
{
    let v = chars_of(details);
    assert(v@.subrange(0, v.len() as int) =~= details@);
    let (a, b) = trim_range(&v, 0, v.len());
    if a == b {
        String::from_str("Camera stream ended before a frame was received")
    } else {
        string_of(&v, a, b)
    }
}

} // verus!
