use cellsight::focus::{
    analysis_size, focus_view_at, focus_view_index, peak_neighbors, plane_limit, resolution_at,
    resolution_index, Admission, FocusResolution, FocusSweep, FocusView, SweepLayout, MAX_PLANES,
};
use cellsight::frame::{composite, crop_pixels, translate, RgbaFrame};

fn frame(width: u32, height: u32, fill: [u8; 4]) -> RgbaFrame {
    RgbaFrame { width, height, pixels: vec![fill; (width * height) as usize] }
}

#[test]
fn needs_three_planes() {
    let mut sweep = FocusSweep::new();
    assert!(sweep.offer_frame(&frame(4, 4, [0, 0, 0, 0]), FocusResolution::Width320).is_some());
    assert_eq!(sweep.finish_layout(), None);
}

#[test]
fn honors_resolution_and_normalized_region() {
    let source = frame(1200, 800, [0, 0, 0, 0]);
    let mut sweep = FocusSweep::new();
    for _ in 0..3 {
        // The normalized region (0.25, 0.25, 0.75, 0.75) of 1200 × 800.
        let cropped = crop_pixels(&source, 300, 200, 900, 600);
        assert_eq!((cropped.width, cropped.height), (600, 400));
        assert!(sweep.offer_frame(&cropped, FocusResolution::Width640).is_some());
    }
    let layout = sweep.finish_layout().unwrap();
    // The 600px-wide crop is not upscaled to the 640 stop.
    assert_eq!((sweep.width(), sweep.height()), (600, 400));
    assert_eq!(layout, SweepLayout { pixels: 240_000, last_plane: 2, middle_plane: 1, planes: 3 });
}

#[test]
fn target_widths_and_analysis_sizes() {
    assert_eq!(FocusResolution::Width320.target_width(), Some(320));
    assert_eq!(FocusResolution::Width960.target_width(), Some(960));
    assert_eq!(FocusResolution::Full.target_width(), None);
    assert_eq!(analysis_size(1200, 800, FocusResolution::Width640), (640, 426));
    assert_eq!(analysis_size(600, 400, FocusResolution::Width640), (600, 400));
    assert_eq!(analysis_size(5000, 3, FocusResolution::Width320), (320, 1));
    assert_eq!(analysis_size(2592, 1944, FocusResolution::Full), (2592, 1944));
}

#[test]
fn plane_budget_follows_memory() {
    assert_eq!(plane_limit(320, 240), MAX_PLANES);
    assert_eq!(plane_limit(2592, 1944), 13);
    assert_eq!(plane_limit(20000, 20000), 3);
    assert_eq!(plane_limit(0, 0), MAX_PLANES);
}

#[test]
fn sweep_is_limited_by_the_budget_and_cleared() {
    let mut sweep = FocusSweep::new();
    for _ in 0..13 {
        assert!(matches!(
            sweep.offer_plane(2592, 1944, FocusResolution::Full),
            Admission::Accepted { width: 2592, height: 1944, .. }
        ));
    }
    assert_eq!(sweep.offer_plane(2592, 1944, FocusResolution::Full), Admission::Limited);
    assert!(sweep.plane_limited());
    assert_eq!(sweep.offer_plane(2592, 1944, FocusResolution::Full), Admission::Limited);
    assert_eq!(sweep.len(), 13);
    sweep.clear();
    assert!(sweep.is_empty());
    assert!(!sweep.plane_limited());
}

#[test]
fn first_plane_fixes_the_size() {
    let mut sweep = FocusSweep::new();
    assert_eq!(
        sweep.offer_plane(1200, 800, FocusResolution::Width320),
        Admission::Accepted { width: 320, height: 213, reference: true }
    );
    assert_eq!(
        sweep.offer_plane(100, 50, FocusResolution::Width320),
        Admission::Accepted { width: 320, height: 213, reference: false }
    );
}

#[test]
fn offered_frames_are_scaled_to_the_sweep() {
    let mut sweep = FocusSweep::new();
    let (first, reference) =
        sweep.offer_frame(&frame(1280, 960, [10, 20, 30, 255]), FocusResolution::Width320).unwrap();
    assert!(reference);
    assert_eq!((first.width, first.height), (320, 240));
    assert_eq!(first.pixels.len(), 320 * 240);
    assert_eq!(first.pixels[0], [10, 20, 30, 255]);
    let (second, reference) =
        sweep.offer_frame(&frame(64, 48, [200, 0, 0, 255]), FocusResolution::Width320).unwrap();
    assert!(!reference);
    assert_eq!((second.width, second.height), (320, 240));
}

#[test]
fn peak_neighbors_clamp_to_the_sweep() {
    assert_eq!(peak_neighbors(0, 5), (0, 1, false));
    assert_eq!(peak_neighbors(2, 5), (1, 3, true));
    assert_eq!(peak_neighbors(4, 5), (3, 4, false));
}

#[test]
fn views_and_resolutions_round_trip_through_menus() {
    for index in 0..5 {
        assert_eq!(focus_view_index(focus_view_at(index)), index);
    }
    assert_eq!(focus_view_at(4), FocusView::AllInFocus);
    assert_eq!(focus_view_index(FocusView::Depth), 1);
    for index in 0..4 {
        assert_eq!(resolution_index(resolution_at(index)), index);
    }
    assert_eq!(resolution_at(3), FocusResolution::Full);
}

#[test]
fn translate_repeats_the_border() {
    let mut image = frame(3, 2, [0, 0, 0, 0]);
    for (i, p) in image.pixels.iter_mut().enumerate() {
        *p = [i as u8, 0, 0, 255];
    }
    let moved = translate(&image, 1, 0);
    let reds: Vec<u8> = moved.pixels.iter().map(|p| p[0]).collect();
    assert_eq!(reds, vec![1, 2, 2, 4, 5, 5]);
    let down = translate(&image, -1, 1);
    let reds: Vec<u8> = down.pixels.iter().map(|p| p[0]).collect();
    assert_eq!(reds, vec![3, 3, 4, 3, 3, 4]);
    let up = translate(&image, -2, -1);
    let reds: Vec<u8> = up.pixels.iter().map(|p| p[0]).collect();
    assert_eq!(reds, vec![0, 0, 0, 0, 0, 0]);
    let same = translate(&image, 0, 0);
    assert_eq!(same.pixels, image.pixels);
}

#[test]
fn crop_keeps_at_least_one_pixel_and_stays_inside() {
    let mut image = frame(4, 4, [0, 0, 0, 0]);
    for (i, p) in image.pixels.iter_mut().enumerate() {
        *p = [i as u8, 0, 0, 255];
    }
    let part = crop_pixels(&image, 1, 2, 3, 4);
    assert_eq!((part.width, part.height), (2, 2));
    let reds: Vec<u8> = part.pixels.iter().map(|p| p[0]).collect();
    assert_eq!(reds, vec![9, 10, 13, 14]);
    let thin = crop_pixels(&image, 2, 2, 2, 1);
    assert_eq!((thin.width, thin.height), (1, 1));
    assert_eq!(thin.pixels[0][0], 10);
    let outside = crop_pixels(&image, 9, 9, 12, 12);
    assert_eq!((outside.width, outside.height), (0, 0));
}

#[test]
fn composite_takes_each_pixel_from_its_plane() {
    let planes = vec![frame(2, 1, [1, 1, 1, 1]), frame(2, 1, [2, 2, 2, 2])];
    let sharp = composite(&planes, &vec![1, 0], 2, 1);
    assert_eq!(sharp.pixels, vec![[2, 2, 2, 2], [1, 1, 1, 1]]);
}
