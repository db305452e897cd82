use imspect::color::ColorSpaceChange;
use imspect::image::{fits_grid, ImageKind};
use imspect::imspection::SingleImspection;
use imspect::threshold::{apply_threshold, ThrSettings, Threshold};

fn gray(width: usize, height: usize, pixels: Vec<u8>) -> ImageKind {
    ImageKind::one_channel(width, height, pixels).unwrap()
}

fn rgb(width: usize, height: usize, pixels: Vec<u8>) -> ImageKind {
    ImageKind::three_channel(width, height, pixels).unwrap()
}

fn pixels(img: &ImageKind) -> Vec<u8> {
    match img {
        ImageKind::OneChannel(d) => d.pixels.clone(),
        ImageKind::ThreeChannel(d) => d.pixels.clone(),
    }
}

#[test]
fn constructors_check_the_buffer_length() {
    assert!(ImageKind::one_channel(2, 3, vec![0; 6]).is_some());
    assert!(ImageKind::one_channel(2, 3, vec![0; 7]).is_none());
    assert!(ImageKind::one_channel(0, 3, vec![]).is_none());
    assert!(ImageKind::three_channel(2, 3, vec![0; 18]).is_some());
    assert!(ImageKind::three_channel(2, 3, vec![0; 6]).is_none());
    assert!(ImageKind::three_channel(2, 0, vec![]).is_none());
    assert!(!fits_grid(usize::MAX, 2, 1, 0));
    assert!(fits_grid(4, 5, 3, 60));
}

#[test]
fn accessors_report_channels_and_size() {
    let g = gray(4, 2, vec![0; 8]);
    assert_eq!(g.num_channels(), 1);
    assert_eq!(g.width(), 4);
    assert_eq!(g.height(), 2);
    let c = rgb(1, 3, vec![0; 9]);
    assert_eq!(c.num_channels(), 3);
    assert_eq!(c.width(), 1);
    assert_eq!(c.height(), 3);
}

#[test]
fn gray_to_rgb_repeats_each_sample() {
    let g = gray(2, 1, vec![7, 200]);
    let out = g.gray_to_rgb().unwrap();
    assert_eq!(out.num_channels(), 3);
    assert_eq!(pixels(&out), vec![7, 7, 7, 200, 200, 200]);
    assert_eq!(pixels(&g), vec![7, 200]);
}

#[test]
fn conversions_refuse_the_other_channel_count() {
    let g = gray(2, 2, vec![1, 2, 3, 4]);
    let c = rgb(1, 1, vec![1, 2, 3]);
    assert!(g.gray_to_rgb().is_some());
    assert!(c.gray_to_rgb().is_none());
    assert!(g.bgr_to_rgb().is_none());
    assert!(c.bgr_to_rgb().is_some());
    assert!(g.rgb_to_gray(vec![0; 4]).is_none());
    assert!(c.rgb_to_gray(vec![2]).is_some());
    assert!(g.rgb_to_hsv(vec![0; 12]).is_none());
    assert!(c.rgb_to_hsv(vec![0, 0, 3]).is_some());
}

#[test]
fn conversions_keep_width_and_height() {
    let g = gray(3, 2, vec![0, 1, 2, 3, 4, 5]);
    let c = rgb(3, 2, (0..18).collect());
    let outs = vec![
        g.gray_to_rgb().unwrap(),
        c.bgr_to_rgb().unwrap(),
        c.rgb_to_gray(vec![1; 6]).unwrap(),
        c.rgb_to_hsv(vec![9; 18]).unwrap(),
    ];
    let channels: Vec<usize> = outs.iter().map(|o| o.num_channels()).collect();
    assert_eq!(channels, vec![3, 3, 1, 3]);
    for o in &outs {
        assert_eq!(o.width(), 3);
        assert_eq!(o.height(), 2);
    }
}

#[test]
fn bgr_to_rgb_swaps_first_and_third_channel() {
    let c = rgb(2, 1, vec![1, 2, 3, 4, 5, 6]);
    assert_eq!(pixels(&c.bgr_to_rgb().unwrap()), vec![3, 2, 1, 6, 5, 4]);
}

#[test]
fn rgb_to_gray_takes_one_sample_per_pixel() {
    let c = rgb(2, 1, vec![255, 0, 0, 0, 255, 252]);
    let out = c.rgb_to_gray(vec![76, 178]).unwrap();
    assert_eq!(out.num_channels(), 1);
    assert_eq!(pixels(&out), vec![76, 178]);
    assert!(c.rgb_to_gray(vec![76]).is_none());
    assert!(c.rgb_to_gray(vec![0; 6]).is_none());
}

#[test]
fn rgb_to_hsv_takes_samples_of_matching_count() {
    let c = rgb(1, 1, vec![255, 0, 0]);
    let out = c.rgb_to_hsv(vec![0, 255, 255]).unwrap();
    assert_eq!(pixels(&out), vec![0, 255, 255]);
    assert!(c.rgb_to_hsv(vec![0, 255]).is_none());
}

#[test]
fn change_color_dispatches() {
    let g = gray(1, 1, vec![5]);
    assert_eq!(pixels(&g.change_color(ColorSpaceChange::GRAY2RGB, None).unwrap()), vec![5, 5, 5]);
    assert!(g.change_color(ColorSpaceChange::RGB2GRAY, Some(vec![5])).is_none());
    let c = rgb(1, 1, vec![1, 2, 3]);
    assert!(c.change_color(ColorSpaceChange::RGB2HSV, None).is_none());
    assert_eq!(
        pixels(&c.change_color(ColorSpaceChange::RGB2HSV, Some(vec![4, 5, 6])).unwrap()),
        vec![4, 5, 6]
    );
    assert_eq!(pixels(&c.change_color(ColorSpaceChange::BGR2RGB, None).unwrap()), vec![3, 2, 1]);
    assert!(c.change_color(ColorSpaceChange::RGB2GRAY, None).is_none());
    assert_eq!(
        pixels(&c.change_color(ColorSpaceChange::RGB2GRAY, Some(vec![2])).unwrap()),
        vec![2]
    );
}

#[test]
fn new_with_changed_color_builds_a_fresh_entry() {
    let e = SingleImspection::new(gray(1, 2, vec![3, 4]), 0);
    let n = e
        .new_with_changed_color(ColorSpaceChange::GRAY2RGB, 9, None)
        .unwrap();
    assert_eq!(n.id, 9);
    assert!(n.need_rerender);
    assert!(!n.remove_flag);
    assert_eq!(n.thr, ThrSettings::default());
    assert_eq!(pixels(&n.image), vec![3, 3, 3, 4, 4, 4]);
    assert!(e
        .new_with_changed_color(ColorSpaceChange::BGR2RGB, 9, None)
        .is_none());
}

#[test]
fn threshold_binary_and_inverted() {
    let g = gray(4, 1, vec![0, 99, 100, 255]);
    let bin = ThrSettings { kind: Threshold::Binary, value: 100 };
    assert_eq!(pixels(&apply_threshold(&g, &bin).unwrap()), vec![0, 0, 255, 255]);
    let inv = ThrSettings { kind: Threshold::BinaryInv, value: 100 };
    assert_eq!(pixels(&apply_threshold(&g, &inv).unwrap()), vec![255, 255, 0, 0]);
    let zero = ThrSettings { kind: Threshold::Binary, value: 0 };
    assert_eq!(pixels(&apply_threshold(&g, &zero).unwrap()), vec![255, 255, 255, 255]);
}

#[test]
fn threshold_disabled_or_on_color_is_not_applied() {
    let g = gray(1, 1, vec![10]);
    assert!(apply_threshold(&g, &ThrSettings::default()).is_none());
    let c = rgb(1, 1, vec![1, 2, 3]);
    let bin = ThrSettings { kind: Threshold::Binary, value: 1 };
    assert!(apply_threshold(&c, &bin).is_none());
}

#[test]
fn threshold_settings_default() {
    let d = ThrSettings::default();
    assert_eq!(d.kind, Threshold::Disabled);
    assert_eq!(d.value, 0);
    assert_eq!(Threshold::default(), Threshold::Disabled);
}
