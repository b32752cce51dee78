use pixel_sorter::animation::{interpolate_pair, interpolate_timeline, render_frame, Animateable, Keyframe};
use pixel_sorter::grid::Image;
use pixel_sorter::interpolation::{interpolate, interpolate_byte};
use pixel_sorter::pixel::Pixel;
use pixel_sorter::pixel_characteristics::PixelCharacteristic;
use pixel_sorter::settings::{Settings, SortingPath, Threshold};
use pixel_sorter::slant::{Tangent, TANGENT_ONE};
use pixel_sorter::sort_algos::{AvailableSortAlgos, SpanSortConfig, SpanSortMethod};
use pixel_sorter::sorter::Sorter;
use pixel_sorter::sorters::{AngledSorter, AvailableLineAlgos, ScanlineSorter};

fn grey(v: u8) -> Pixel {
    Pixel::new(v, v, v, 255)
}

fn image(width: usize, height: usize, values: &[u8]) -> Image {
    Image::new(width, height, values.iter().map(|v| grey(*v)).collect()).unwrap()
}

fn values(image: &Image) -> Vec<u8> {
    image.pixels.iter().map(|p| p.r).collect()
}

fn span_sort(min: u8, max: u8) -> SpanSortMethod {
    SpanSortMethod {
        config: SpanSortConfig {
            threshold: Threshold { min, max, threshold_type: PixelCharacteristic::Average, invert: false },
            sorting_method: PixelCharacteristic::Average,
        },
    }
}

fn scan_key(min: u8, max: u8) -> Keyframe {
    Keyframe {
        line_algo: AvailableLineAlgos::Scanline(ScanlineSorter),
        sort_algo: AvailableSortAlgos::SpanSort(span_sort(min, max)),
    }
}

fn angled_key(angle: u32, min: u8, max: u8) -> Keyframe {
    Keyframe {
        line_algo: AvailableLineAlgos::Angled(AngledSorter { angle }),
        sort_algo: AvailableSortAlgos::SpanSort(span_sort(min, max)),
    }
}

fn threshold_of(frame: &Keyframe) -> (u8, u8) {
    match frame.sort_algo {
        AvailableSortAlgos::SpanSort(method) => (method.config.threshold.min, method.config.threshold.max),
    }
}

fn angle_of(frame: &Keyframe) -> Option<u32> {
    match frame.line_algo {
        AvailableLineAlgos::Angled(sorter) => Some(sorter.angle),
        AvailableLineAlgos::Scanline(_) => None,
    }
}

#[test]
fn ten_steps_from_0_to_100_land_on_100() {
    let walk: Vec<u8> = (0..=10).map(|step| interpolate_byte(0, 100, step, 10)).collect();
    assert_eq!(walk, vec![0, 10, 20, 30, 40, 50, 60, 70, 80, 90, 100]);
}

#[test]
fn rising_values_are_rounded_up() {
    let walk: Vec<u32> = (0..=3).map(|step| interpolate(0, 100, step, 3)).collect();
    assert_eq!(walk, vec![0, 34, 67, 100]);
    assert_eq!(interpolate(10, 11, 1, 1000), 11);
}

#[test]
fn falling_values_are_rounded_down() {
    let walk: Vec<u32> = (0..=3).map(|step| interpolate(100, 0, step, 3)).collect();
    assert_eq!(walk, vec![100, 66, 33, 0]);
    assert_eq!(interpolate(11, 10, 1, 1000), 10);
}

#[test]
fn interpolation_never_overshoots() {
    for (start, target) in [(0u32, 100u32), (100, 0), (7, 7), (0, u32::MAX), (u32::MAX, 0), (250, 3)] {
        for steps in [1u32, 2, 7, 180, u32::MAX] {
            for step in [0u32, 1, steps / 2, steps - 1, steps] {
                let value = interpolate(start, target, step, steps);
                assert!(value >= start.min(target) && value <= start.max(target));
            }
            assert_eq!(interpolate(start, target, 0, steps), start);
            assert_eq!(interpolate(start, target, steps, steps), target);
        }
    }
}

#[test]
fn past_the_last_step_is_the_target() {
    assert_eq!(interpolate(5, 50, 11, 10), 50);
    assert_eq!(interpolate(5, 50, 0, 0), 50);
    assert_eq!(interpolate_byte(200, 3, 9, 0), 3);
}

#[test]
fn span_sort_lerp_moves_the_threshold_only() {
    let mut method = SpanSortMethod {
        config: SpanSortConfig {
            threshold: Threshold { min: 0, max: 255, threshold_type: PixelCharacteristic::Red, invert: true },
            sorting_method: PixelCharacteristic::Blue,
        },
    };
    let target = span_sort(100, 55);
    method.lerp(&target, 1, 4);
    assert_eq!(method.config.threshold.min, 25);
    assert_eq!(method.config.threshold.max, 205);
    assert_eq!(method.config.threshold.threshold_type, PixelCharacteristic::Red);
    assert!(method.config.threshold.invert);
    assert_eq!(method.config.sorting_method, PixelCharacteristic::Blue);
}

#[test]
fn angled_lerp_moves_the_angle() {
    let mut sorter = AngledSorter { angle: 10_000 };
    sorter.lerp(&AngledSorter { angle: 40_000 }, 1, 3);
    assert_eq!(sorter.angle, 20_000);
    let mut sorter = AngledSorter { angle: 40_000 };
    sorter.lerp(&AngledSorter { angle: 10_001 }, 1, 3);
    assert_eq!(sorter.angle, 30_000);
}

#[test]
fn line_algos_of_different_kinds_do_not_move() {
    let mut algo = AvailableLineAlgos::Scanline(ScanlineSorter);
    algo.lerp(&AvailableLineAlgos::Angled(AngledSorter { angle: 40_000 }), 1, 2);
    assert!(matches!(algo, AvailableLineAlgos::Scanline(_)));
    let mut algo = AvailableLineAlgos::Angled(AngledSorter { angle: 7 });
    algo.lerp(&AvailableLineAlgos::Scanline(ScanlineSorter), 1, 2);
    assert!(matches!(algo, AvailableLineAlgos::Angled(AngledSorter { angle: 7 })));
    let mut algo = AvailableLineAlgos::Angled(AngledSorter { angle: 0 });
    algo.lerp(&AvailableLineAlgos::Angled(AngledSorter { angle: 90 }), 1, 2);
    assert!(matches!(algo, AvailableLineAlgos::Angled(AngledSorter { angle: 45 })));
}

#[test]
fn sort_algos_lerp_through_the_variant() {
    let mut algo = AvailableSortAlgos::SpanSort(span_sort(0, 200));
    algo.lerp(&AvailableSortAlgos::SpanSort(span_sort(100, 100)), 5, 10);
    match algo {
        AvailableSortAlgos::SpanSort(method) => {
            assert_eq!(method.config.threshold.min, 50);
            assert_eq!(method.config.threshold.max, 150);
        }
    }
}

#[test]
fn frames_between_two_keyframes() {
    let frames = interpolate_pair(&angled_key(0, 0, 255), &angled_key(30_000, 100, 155), 10);
    assert_eq!(frames.len(), 10);
    let mins: Vec<u8> = frames.iter().map(|f| threshold_of(f).0).collect();
    let maxs: Vec<u8> = frames.iter().map(|f| threshold_of(f).1).collect();
    let angles: Vec<u32> = frames.iter().map(|f| angle_of(f).unwrap()).collect();
    assert_eq!(mins, vec![10, 20, 30, 40, 50, 60, 70, 80, 90, 100]);
    assert_eq!(maxs, vec![245, 235, 225, 215, 205, 195, 185, 175, 165, 155]);
    assert_eq!(angles, vec![3000, 6000, 9000, 12000, 15000, 18000, 21000, 24000, 27000, 30000]);
}

#[test]
fn keyframes_of_different_kinds_have_no_frames_between() {
    assert!(interpolate_pair(&scan_key(0, 255), &angled_key(30_000, 100, 155), 10).is_empty());
    assert!(interpolate_pair(&angled_key(30_000, 100, 155), &scan_key(0, 255), 10).is_empty());
    assert!(!scan_key(0, 1).can_join(&angled_key(0, 0, 1)));
    assert!(scan_key(0, 1).can_join(&scan_key(9, 10)));
    assert!(angled_key(5, 0, 1).can_join(&angled_key(6, 9, 10)));
}

#[test]
fn no_steps_give_no_frames() {
    assert!(interpolate_pair(&scan_key(0, 255), &scan_key(100, 155), 0).is_empty());
}

#[test]
fn timeline_joins_neighbours_only() {
    let keys = vec![scan_key(0, 255), scan_key(10, 245), angled_key(0, 10, 245), angled_key(100, 20, 245), angled_key(0, 20, 45)];
    let frames = interpolate_timeline(&keys, 2);
    assert_eq!(frames.len(), 6);
    let mins: Vec<u8> = frames.iter().map(|f| threshold_of(f).0).collect();
    let maxs: Vec<u8> = frames.iter().map(|f| threshold_of(f).1).collect();
    let angles: Vec<Option<u32>> = frames.iter().map(angle_of).collect();
    assert_eq!(mins, vec![5, 10, 15, 20, 20, 20]);
    assert_eq!(maxs, vec![250, 245, 245, 245, 145, 45]);
    assert_eq!(angles, vec![None, None, Some(50), Some(100), Some(50), Some(0)]);
}

#[test]
fn short_timelines_have_no_frames() {
    assert!(interpolate_timeline(&vec![], 10).is_empty());
    assert!(interpolate_timeline(&vec![scan_key(0, 255)], 10).is_empty());
}

#[test]
fn every_frame_starts_from_the_base_image() {
    let base = image(4, 1, &[10, 200, 20, 220]);
    let first = render_frame(&base, &scan_key(0, 255), Tangent { ratio: 0 });
    assert_eq!(values(&first), vec![10, 20, 200, 220]);
    assert_eq!(values(&base), vec![10, 200, 20, 220]);
    let second = render_frame(&base, &scan_key(0, 128), Tangent { ratio: 0 });
    assert_eq!(values(&second), vec![10, 200, 20, 220]);
}

#[test]
fn frames_render_along_their_lines() {
    let base = image(3, 3, &[9, 8, 7, 6, 5, 4, 3, 2, 1]);
    let frame = render_frame(&base, &angled_key(45_000, 0, 255), Tangent { ratio: TANGENT_ONE });
    assert_eq!(values(&frame), vec![9, 8, 7, 2, 1, 4, 3, 6, 5]);
}

#[test]
fn sorter_sorts_resets_and_opens() {
    let settings = Settings {
        sort_path_angle: 0,
        sort_path: SortingPath::Linear,
        threshold: Threshold::default(),
        sort_by: PixelCharacteristic::Average,
    };
    let mut sorter = Sorter {
        original_image: image(0, 0, &[]),
        current_image: image(0, 0, &[]),
        settings,
    };
    sorter.open_image(image(3, 2, &[3, 2, 1, 6, 5, 4]));
    assert_eq!(values(&sorter.original_image), vec![3, 2, 1, 6, 5, 4]);
    assert_eq!(values(&sorter.current_image), vec![3, 2, 1, 6, 5, 4]);
    sorter.sort(Tangent { ratio: 0 });
    assert_eq!(values(&sorter.current_image), vec![1, 2, 3, 4, 5, 6]);
    assert_eq!(values(&sorter.original_image), vec![3, 2, 1, 6, 5, 4]);
    sorter.reset_current_image();
    assert_eq!(values(&sorter.current_image), vec![3, 2, 1, 6, 5, 4]);
    sorter.sort_linear(Tangent { ratio: 0 });
    assert_eq!(values(&sorter.current_image), vec![1, 2, 3, 4, 5, 6]);
}

#[test]
fn sorter_follows_the_angle_of_its_settings() {
    let mut settings = Settings::default();
    assert_eq!(settings.sort_path_angle, 45_000);
    let mut sorter = Sorter {
        original_image: image(3, 3, &[9, 8, 7, 6, 5, 4, 3, 2, 1]),
        current_image: image(3, 3, &[9, 8, 7, 6, 5, 4, 3, 2, 1]),
        settings,
    };
    sorter.sort(Tangent { ratio: TANGENT_ONE });
    assert_eq!(values(&sorter.current_image), vec![9, 8, 7, 2, 1, 4, 3, 6, 5]);
    settings.sort_path_angle = 90_000;
    sorter.settings = settings;
    sorter.reset_current_image();
    sorter.sort(Tangent { ratio: TANGENT_ONE });
    assert_eq!(values(&sorter.current_image), vec![7, 8, 9, 4, 5, 6, 1, 2, 3]);
}
