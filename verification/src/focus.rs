//! Focus-from-defocus bookkeeping for a monotonic microscope focus sweep:
//! analysis resolutions, the memory budget of the plane stack, the sweep's
//! plane ledger and the integer image operations of plane alignment.

use vstd::prelude::*;
use crate::frame::{resize_fits, resize_triangle, resized_pixels, RgbaFrame};

verus! {

/// The most planes a sweep keeps.
pub const MAX_PLANES: usize = 180;

/// The memory budget of the plane stack, in bytes.
pub const MAX_STACK_BYTES: usize = 512 * 1024 * 1024;

/// The width at which focus is analysed.
#[derive(Clone, Copy, Debug, PartialEq, Eq, Structural)]
pub enum FocusResolution {
    Width320,
    Width640,
    Width960,
    Full,
}

pub open spec fn resolution_width(r: FocusResolution) -> Option<u32> {
    match r {
        FocusResolution::Width320 => Some(320),
        FocusResolution::Width640 => Some(640),
        FocusResolution::Width960 => Some(960),
        FocusResolution::Full => None,
    }
}

impl FocusResolution {
    /// The analysis width, or `None` to analyse at full resolution.
    pub fn target_width(self) -> (r: Option<u32>)
        ensures
            r == resolution_width(self),
    {
        match self {
            FocusResolution::Width320 => Some(320),
            FocusResolution::Width640 => Some(640),
            FocusResolution::Width960 => Some(960),
            FocusResolution::Full => None,
        }
    }
}

/// The analysis widths along the depth-resolution slider, whose stops are
/// labelled `320`, `640`, `960` and `Full`.
pub open spec fn slider_widths() -> Seq<Option<u32>> {
    seq![Some(320u32), Some(640u32), Some(960u32), None]
}

/// The position of a resolution on the depth-resolution slider.
pub open spec fn resolution_position(r: FocusResolution) -> usize {
    match r {
        FocusResolution::Width320 => 0,
        FocusResolution::Width640 => 1,
        FocusResolution::Width960 => 2,
        FocusResolution::Full => 3,
    }
}

/// The slider position of a resolution.
pub fn resolution_index(r: FocusResolution) -> (i: usize)
    ensures
        i == resolution_position(r),
        i < 4,
        resolution_width(r) == slider_widths()[i as int],
{
    match r {
        FocusResolution::Width320 => 0,
        FocusResolution::Width640 => 1,
        FocusResolution::Width960 => 2,
        FocusResolution::Full => 3,
    }
}

/// The resolution at a slider position.
pub fn resolution_at(index: usize) -> (r: FocusResolution)
    requires
        index < 4,
    ensures
        resolution_position(r) == index,
        resolution_width(r) == slider_widths()[index as int],
{
    if index == 0 {
        FocusResolution::Width320
    } else if index == 1 {
        FocusResolution::Width640
    } else if index == 2 {
        FocusResolution::Width960
    } else {
        FocusResolution::Full
    }
}

/// The images a finished sweep can show.
#[derive(Clone, Copy, Debug, PartialEq, Eq, Structural)]
pub enum FocusView {
    Original,
    Depth,
    Falloff,
    Confidence,
    AllInFocus,
}

/// The views in the order of the comparison menus, whose entries are
/// labelled `Original`, `Depth`, `Falloff`, `Confidence` and `All in focus`.
pub open spec fn comparison_menu() -> Seq<FocusView> {
    seq![
        FocusView::Original,
        FocusView::Depth,
        FocusView::Falloff,
        FocusView::Confidence,
        FocusView::AllInFocus,
    ]
}

/// The position of a view in the comparison menus.
pub open spec fn view_position(view: FocusView) -> usize {
    match view {
        FocusView::Original => 0,
        FocusView::Depth => 1,
        FocusView::Falloff => 2,
        FocusView::Confidence => 3,
        FocusView::AllInFocus => 4,
    }
}

/// The menu position of a view.
pub fn focus_view_index(view: FocusView) -> (i: usize)
    ensures
        i == view_position(view),
        i < 5,
        comparison_menu()[i as int] == view,
{
    match view {
        FocusView::Original => 0,
        FocusView::Depth => 1,
        FocusView::Falloff => 2,
        FocusView::Confidence => 3,
        FocusView::AllInFocus => 4,
    }
}

/// The view at a menu position.
pub fn focus_view_at(index: usize) -> (view: FocusView)
    requires
        index < 5,
    ensures
        view_position(view) == index,
        view == comparison_menu()[index as int],
{
    if index == 0 {
        FocusView::Original
    } else if index == 1 {
        FocusView::Depth
    } else if index == 2 {
        FocusView::Falloff
    } else if index == 3 {
        FocusView::Confidence
    } else {
        FocusView::AllInFocus
    }
}

/// Menu positions and views correspond one to one.
pub proof fn view_positions_round_trip(view: FocusView, index: usize)
    ensures
        view_position(view) < 5,
        index < 5 ==> exists|v: FocusView| #[trigger] view_position(v) == index,
        forall|v: FocusView| view_position(v) == view_position(view) ==> v == view,
{
    if index < 5 {
        if index == 0 {
            assert(view_position(FocusView::Original) == index);
        } else if index == 1 {
            assert(view_position(FocusView::Depth) == index);
        } else if index == 2 {
            assert(view_position(FocusView::Falloff) == index);
        } else if index == 3 {
            assert(view_position(FocusView::Confidence) == index);
        } else {
            assert(view_position(FocusView::AllInFocus) == index);
        }
    }
}

/// The comparison menus list the views in label order: Original first, then
/// Depth, Falloff, Confidence and All in focus, so a menu entry selects the
/// view it names.
pub proof fn menu_positions_follow_labels()
    ensures
        view_position(FocusView::Original) == 0,
        view_position(FocusView::Depth) == 1,
        view_position(FocusView::Falloff) == 2,
        view_position(FocusView::Confidence) == 3,
        view_position(FocusView::AllInFocus) == 4,
        forall|v: FocusView| #[trigger] comparison_menu()[view_position(v) as int] == v,
{
    assert forall|v: FocusView| #[trigger] comparison_menu()[view_position(v) as int] == v by {
        match v {
            FocusView::Original => {},
            FocusView::Depth => {},
            FocusView::Falloff => {},
            FocusView::Confidence => {},
            FocusView::AllInFocus => {},
        }
    }
}

/// Slider stops follow the analysis width: of two width-limited
/// resolutions, the narrower sits to the left, full resolution is the last
/// stop, and the stops are 320, 640 and 960 pixels wide.
pub proof fn slider_positions_follow_widths(r: FocusResolution, q: FocusResolution)
    ensures
        resolution_width(r) is Some && resolution_width(q) is Some ==> (resolution_position(r)
            < resolution_position(q) <==> resolution_width(r)->0 < resolution_width(q)->0),
        resolution_width(r) is None <==> resolution_position(r) == 3,
        resolution_position(r) == 0 ==> resolution_width(r) == Some(320u32),
        resolution_position(r) == 1 ==> resolution_width(r) == Some(640u32),
        resolution_position(r) == 2 ==> resolution_width(r) == Some(960u32),
        slider_widths()[resolution_position(r) as int] == resolution_width(r),
{
    match r {
        FocusResolution::Width320 => match q {
            FocusResolution::Width320 => {},
            FocusResolution::Width640 => {},
            FocusResolution::Width960 => {},
            FocusResolution::Full => {},
        },
        FocusResolution::Width640 => match q {
            FocusResolution::Width320 => {},
            FocusResolution::Width640 => {},
            FocusResolution::Width960 => {},
            FocusResolution::Full => {},
        },
        FocusResolution::Width960 => match q {
            FocusResolution::Width320 => {},
            FocusResolution::Width640 => {},
            FocusResolution::Width960 => {},
            FocusResolution::Full => {},
        },
        FocusResolution::Full => {},
    }
}

/// Slider positions and resolutions correspond one to one.
pub proof fn resolution_positions_round_trip(r: FocusResolution, index: usize)
    ensures
        resolution_position(r) < 4,
        index < 4 ==> exists|q: FocusResolution| #[trigger] resolution_position(q) == index,
        forall|q: FocusResolution| resolution_position(q) == resolution_position(r) ==> q == r,
{
    if index < 4 {
        if index == 0 {
            assert(resolution_position(FocusResolution::Width320) == index);
        } else if index == 1 {
            assert(resolution_position(FocusResolution::Width640) == index);
        } else if index == 2 {
            assert(resolution_position(FocusResolution::Width960) == index);
        } else {
            assert(resolution_position(FocusResolution::Full) == index);
        }
    }
}

/// The size at which a `width` × `height` frame is analysed: frames wider
/// than the target width are scaled down to it, keeping the aspect ratio and
/// at least one row; narrower frames are never scaled up.
pub open spec fn analysis_dims(width: u32, height: u32, resolution: FocusResolution) -> (u32, u32) {
    match resolution_width(resolution) {
        None => (width, height),
        Some(target) => if width <= target {
            (width, height)
        } else {
            let scaled = (height as int) * (target as int) / (width as int);
            (target, if scaled >= 1 { scaled as u32 } else { 1 })
        },
    }
}

/// Whether scaling a frame stays within `u32` arithmetic.
pub open spec fn analysis_fits(width: u32, height: u32, resolution: FocusResolution) -> bool {
    match resolution_width(resolution) {
        None => true,
        Some(target) => width <= target || height * target <= u32::MAX,
    }
}

/// The size at which a frame is analysed; see [`analysis_dims`].
pub fn analysis_size(width: u32, height: u32, resolution: FocusResolution) -> (r: (u32, u32))
    requires
        analysis_fits(width, height, resolution),
    ensures
        r == analysis_dims(width, height, resolution),
{
    let target_width = match resolution.target_width() {
        None => return (width, height),
        Some(t) => t,
    };
    if width <= target_width {
        return (width, height);
    }
    let scaled = height * target_width / width;
    (target_width, if scaled >= 1 { scaled } else { 1 })
}

/// Analysis never scales a frame up: the analysis width is at most the
/// frame's width and the target width, the height at most the frame's
/// height (but never below one row), and a frame already narrow enough is
/// analysed as it is.
pub proof fn analysis_never_upscales(width: u32, height: u32, resolution: FocusResolution)
    ensures
        analysis_dims(width, height, resolution).0 <= width,
        resolution_width(resolution) matches Some(t) ==> analysis_dims(width, height, resolution).0
            <= t,
        analysis_dims(width, height, resolution).1 <= if height >= 1 { height } else { 1 },
        resolution_width(resolution) matches Some(t) && width <= t ==> analysis_dims(
            width,
            height,
            resolution,
        ) == (width, height),
{
    if let Some(t) = resolution_width(resolution) {
        if width > t {
            assert((height as int) * (t as int) / (width as int) <= height as int) by (nonlinear_arith)
                requires
                    0 <= t < width,
                    0 <= height,
            ;
        }
    }
}

/// How many planes of `width` × `height` fit the stack's memory budget,
/// counting eight bytes per pixel and never fewer than 3 nor more than [`MAX_PLANES`].
pub open spec fn plane_budget(width: u32, height: u32) -> nat {
    let bytes: int = width * height * 8;
    let per_plane: int = if bytes >= 1 { bytes } else { 1 };
    let planes: int = (MAX_STACK_BYTES as int) / per_plane;
    if planes < 3 {
        3
    } else if planes > MAX_PLANES {
        MAX_PLANES as nat
    } else {
        planes as nat
    }
}

/// The plane budget of a plane size; see [`plane_budget`].
pub fn plane_limit(width: u32, height: u32) -> (limit: usize)
    requires
        width * height * 8 <= usize::MAX,
    ensures
        limit == plane_budget(width, height),
        3 <= limit <= MAX_PLANES,
{
    let bytes_per_plane = width as usize * height as usize * 8;
    let per_plane = if bytes_per_plane >= 1 { bytes_per_plane } else { 1 };
    let planes = MAX_STACK_BYTES / per_plane;
    if planes < 3 {
        3
    } else if planes > MAX_PLANES {
        MAX_PLANES
    } else {
        planes
    }
}

/// What happens to a plane offered to a sweep.
#[derive(Clone, Copy, Debug, PartialEq, Eq, Structural)]
pub enum Admission {
    /// The stack is at its plane budget: the plane is dropped and the sweep
    /// marked as plane limited.
    Limited,
    /// The plane joins the sweep, scaled to `width` × `height`. The first
    /// plane is the `reference` that later planes are aligned to.
    Accepted { width: u32, height: u32, reference: bool },
}

/// The ledger of a focus sweep: the analysis size fixed by its first plane,
/// how many planes it holds and whether the memory budget turned planes away.
pub struct FocusSweep {
    width: u32,
    height: u32,
    planes: usize,
    plane_limited: bool,
}

/// The three planes around a focus peak: the plane before, the plane after
/// (both clamped to the sweep) and whether the peak lies strictly inside the
/// sweep, where its sub-plane position can be interpolated.
pub open spec fn peak_window(best: nat, planes: nat) -> (nat, nat, bool) {
    (
        if best >= 1 { (best - 1) as nat } else { 0 },
        if best + 1 <= planes - 1 { best + 1 } else { (planes - 1) as nat },
        best > 0 && best + 1 < planes,
    )
}

/// The planes that flank the sharpest plane of a pixel; see [`peak_window`].
pub fn peak_neighbors(best: usize, planes: usize) -> (r: (usize, usize, bool))
    requires
        best < planes,
    ensures
        (r.0 as nat, r.1 as nat, r.2) == peak_window(best as nat, planes as nat),
{
    let left = if best >= 1 { best - 1 } else { 0 };
    let right = if best + 1 <= planes - 1 { best + 1 } else { planes - 1 };
    (left, right, best > 0 && best + 1 < planes)
}

/// What a finished sweep is laid out as: `pixels` per plane, the index of the
/// last plane (the depth scale) and of the middle plane (the original image).
#[derive(Clone, Copy, Debug, PartialEq, Eq, Structural)]
pub struct SweepLayout {
    pub pixels: usize,
    pub last_plane: usize,
    pub middle_plane: usize,
    pub planes: usize,
}

/// What becomes of a plane of `width` × `height` at `resolution` offered to
/// a sweep of `planes` planes at `sweep_width` × `sweep_height`: it is
/// refused once the sweep holds as many planes as the budget of the plane's
/// analysis size allows; otherwise it is scaled to the analysis size if it
/// is the first plane, which becomes the reference, and to the sweep's size
/// if not.
pub open spec fn planned_admission(
    planes: nat,
    sweep_width: u32,
    sweep_height: u32,
    width: u32,
    height: u32,
    resolution: FocusResolution,
) -> Admission {
    let (w, h) = analysis_dims(width, height, resolution);
    if planes >= plane_budget(w, h) {
        Admission::Limited
    } else if planes == 0 {
        Admission::Accepted { width: w, height: h, reference: true }
    } else {
        Admission::Accepted { width: sweep_width, height: sweep_height, reference: false }
    }
}

/// How a sweep changes when a plane meets admission `a`: a refused plane
/// marks the sweep plane limited; an accepted one is counted and its size
/// becomes the sweep's size.
pub open spec fn offered(before: FocusSweep, after: FocusSweep, a: Admission) -> bool {
    match a {
        Admission::Limited => {
            &&& after.sweep_plane_limited()
            &&& after.sweep_planes() == before.sweep_planes()
            &&& after.sweep_width() == before.sweep_width()
            &&& after.sweep_height() == before.sweep_height()
        },
        Admission::Accepted { width, height, .. } => {
            &&& after.sweep_planes() == before.sweep_planes() + 1
            &&& after.sweep_plane_limited() == before.sweep_plane_limited()
            &&& after.sweep_width() == width
            &&& after.sweep_height() == height
        },
    }
}

/// Once a sweep holds a plane, every plane it accepts has the size of its
/// first plane: the sweep's analysis size does not change until it is cleared.
pub proof fn sweep_size_is_fixed_by_first_plane(
    before: FocusSweep,
    after: FocusSweep,
    width: u32,
    height: u32,
    resolution: FocusResolution,
)
    requires
        before.sweep_planes() > 0,
        offered(
            before,
            after,
            planned_admission(
                before.sweep_planes(),
                before.sweep_width(),
                before.sweep_height(),
                width,
                height,
                resolution,
            ),
        ),
    ensures
        after.sweep_width() == before.sweep_width(),
        after.sweep_height() == before.sweep_height(),
        planned_admission(
            before.sweep_planes(),
            before.sweep_width(),
            before.sweep_height(),
            width,
            height,
            resolution,
        ) matches Admission::Accepted { width: w, height: h, reference } ==> w
            == before.sweep_width() && h == before.sweep_height() && !reference,
{
}

/// A plane the budget refuses is refused again, however often it is
/// offered, until the sweep is cleared; the sweep stays plane limited.
pub proof fn refused_plane_stays_refused(
    before: FocusSweep,
    after: FocusSweep,
    width: u32,
    height: u32,
    resolution: FocusResolution,
)
    requires
        planned_admission(
            before.sweep_planes(),
            before.sweep_width(),
            before.sweep_height(),
            width,
            height,
            resolution,
        ) == Admission::Limited,
        offered(before, after, Admission::Limited),
    ensures
        after.sweep_plane_limited(),
        planned_admission(
            after.sweep_planes(),
            after.sweep_width(),
            after.sweep_height(),
            width,
            height,
            resolution,
        ) == Admission::Limited,
{
}

/// The fewest planes a sweep needs to locate focus peaks.
pub const MIN_PLANES: usize = 3;

impl FocusSweep {
    #[verifier::type_invariant]
    spec fn within_budget(self) -> bool {
        self.planes <= MAX_PLANES
    }

    pub closed spec fn sweep_width(self) -> u32 {
        self.width
    }

    pub closed spec fn sweep_height(self) -> u32 {
        self.height
    }

    pub closed spec fn sweep_planes(self) -> nat {
        self.planes as nat
    }

    pub closed spec fn sweep_plane_limited(self) -> bool {
        self.plane_limited
    }

    /// An empty sweep.
    pub fn new() -> (s: Self)
        ensures
            s.sweep_planes() == 0,
            !s.sweep_plane_limited(),
            s.sweep_width() == 0,
            s.sweep_height() == 0,
    {
        FocusSweep { width: 0, height: 0, planes: 0, plane_limited: false }
    }

    /// The number of planes held.
    pub fn len(&self) -> (n: usize)
        ensures
            n == self.sweep_planes(),
            n <= MAX_PLANES,
    {
        proof {
            use_type_invariant(self);
        }
        self.planes
    }

    pub fn is_empty(&self) -> (b: bool)
        ensures
            b == (self.sweep_planes() == 0),
    {
        self.planes == 0
    }

    pub fn width(&self) -> (w: u32)
        ensures
            w == self.sweep_width(),
    {
        self.width
    }

    pub fn height(&self) -> (h: u32)
        ensures
            h == self.sweep_height(),
    {
        self.height
    }

    pub fn plane_limited(&self) -> (b: bool)
        ensures
            b == self.sweep_plane_limited(),
    {
        self.plane_limited
    }

    /// Forgets every plane.
    pub fn clear(&mut self)
        ensures
            final(self).sweep_planes() == 0,
            !final(self).sweep_plane_limited(),
            final(self).sweep_width() == 0,
            final(self).sweep_height() == 0,
    {
        *self = FocusSweep::new();
    }

    /// Offers a cropped frame of `width` × `height` at `resolution`; see
    /// [`planned_admission`]. An accepted plane is counted, and the first one
    /// fixes the size that every plane is scaled to.
    pub fn offer_plane(&mut self, width: u32, height: u32, resolution: FocusResolution) -> (a: Admission)
        requires
            analysis_fits(width, height, resolution),
            analysis_dims(width, height, resolution).0 * analysis_dims(width, height, resolution).1
                * 8 <= usize::MAX,
        ensures
            a == planned_admission(
                old(self).sweep_planes(),
                old(self).sweep_width(),
                old(self).sweep_height(),
                width,
                height,
                resolution,
            ),
            offered(*old(self), *final(self), a),
            final(self).sweep_planes() <= MAX_PLANES,
    {
        proof {
            use_type_invariant(&*self);
        }
        let (w, h) = analysis_size(width, height, resolution);
        let limit = plane_limit(w, h);
        if self.planes >= limit {
            self.plane_limited = true;
            return Admission::Limited;
        }
        let first = self.planes == 0;
        if first {
            self.width = w;
            self.height = h;
        }
        self.planes = self.planes + 1;
        Admission::Accepted { width: self.width, height: self.height, reference: first }
    }

    /// Offers a cropped frame to the sweep; see [`planned_admission`]. An
    /// accepted frame comes back scaled to the sweep's analysis size, with
    /// whether it is the reference plane.
    pub fn offer_frame(&mut self, cropped: &RgbaFrame, resolution: FocusResolution) -> (r: Option<(RgbaFrame, bool)>)
        requires
            cropped.well_formed(),
            analysis_fits(cropped.width, cropped.height, resolution),
            analysis_dims(cropped.width, cropped.height, resolution).0 * analysis_dims(
                cropped.width,
                cropped.height,
                resolution,
            ).1 * 8 <= usize::MAX,
            planned_admission(
                old(self).sweep_planes(),
                old(self).sweep_width(),
                old(self).sweep_height(),
                cropped.width,
                cropped.height,
                resolution,
            ) matches Admission::Accepted { width, height, .. } ==> resize_fits(cropped, width, height),
        ensures
            offered(
                *old(self),
                *final(self),
                planned_admission(
                    old(self).sweep_planes(),
                    old(self).sweep_width(),
                    old(self).sweep_height(),
                    cropped.width,
                    cropped.height,
                    resolution,
                ),
            ),
            match planned_admission(
                old(self).sweep_planes(),
                old(self).sweep_width(),
                old(self).sweep_height(),
                cropped.width,
                cropped.height,
                resolution,
            ) {
                Admission::Limited => r is None,
                Admission::Accepted { width, height, reference } => r matches Some((plane, first))
                    && first == reference && plane.width == width && plane.height == height
                    && plane.well_formed() && plane.pixels@ == resized_pixels(
                    cropped.pixels@,
                    cropped.width,
                    cropped.height,
                    width,
                    height,
                ),
            },
    {
        match self.offer_plane(cropped.width, cropped.height, resolution) {
            Admission::Limited => None,
            Admission::Accepted { width, height, reference } => {
                Some((resize_triangle(cropped, width, height), reference))
            },
        }
    }

    /// The layout of the finished depth profile, or `None` while the sweep
    /// holds fewer than [`MIN_PLANES`] planes.
    pub fn finish_layout(&self) -> (r: Option<SweepLayout>)
        requires
            self.sweep_planes() >= MIN_PLANES ==> self.sweep_width() * self.sweep_height()
                <= u32::MAX,
        ensures
            self.sweep_planes() < MIN_PLANES ==> r is None,
            self.sweep_planes() >= MIN_PLANES ==> r == Some(
                SweepLayout {
                    pixels: (self.sweep_width() * self.sweep_height()) as usize,
                    last_plane: (self.sweep_planes() - 1) as usize,
                    middle_plane: (self.sweep_planes() / 2) as usize,
                    planes: self.sweep_planes() as usize,
                },
            ),
    {
        if self.planes < MIN_PLANES {
            return None;
        }
        let pixels = (self.width * self.height) as usize;
        Some(
            SweepLayout {
                pixels,
                last_plane: self.planes - 1,
                middle_plane: self.planes / 2,
                planes: self.planes,
            },
        )
    }
}


} // verus!
