use pixel_sorter::pixel::Pixel;
use pixel_sorter::pixel_characteristics::PixelCharacteristic;
use pixel_sorter::settings::{Settings, SortingPath, Threshold};
use std::cmp::Ordering;

fn px(r: u8, g: u8, b: u8) -> Pixel {
    Pixel::new(r, g, b, 255)
}

#[test]
fn pixel_keeps_its_channels() {
    let p = Pixel::new(1, 2, 3, 4);
    assert_eq!((p.r, p.g, p.b, p.a), (1, 2, 3, 4));
    assert_eq!(p.to_array(), [1, 2, 3, 4]);
}

#[test]
fn average_is_rounded_down() {
    let c = PixelCharacteristic::Average;
    assert_eq!(c.get_pixel_characteristic_value(&px(10, 20, 31)), 20);
    assert_eq!(c.get_pixel_characteristic_value(&px(255, 255, 255)), 255);
    assert_eq!(c.get_pixel_characteristic_value(&px(0, 0, 2)), 0);
    assert_eq!(c.get_pixel_characteristic_value(&px(255, 255, 254)), 254);
}

#[test]
fn average_ignores_alpha() {
    let c = PixelCharacteristic::Average;
    assert_eq!(
        c.get_pixel_characteristic_value(&Pixel::new(30, 60, 90, 0)),
        c.get_pixel_characteristic_value(&Pixel::new(30, 60, 90, 255))
    );
}

#[test]
fn luminance_uses_the_documented_weights() {
    let c = PixelCharacteristic::Luminance;
    // 0.2126 * 100 + 0.7152 * 50 + 0.0722 * 200 = 71.46
    assert_eq!(c.get_pixel_characteristic_value(&px(100, 50, 200)), 71);
    assert_eq!(c.get_pixel_characteristic_value(&px(255, 0, 0)), 54);
    assert_eq!(c.get_pixel_characteristic_value(&px(0, 255, 0)), 182);
    assert_eq!(c.get_pixel_characteristic_value(&px(0, 0, 255)), 18);
    assert_eq!(c.get_pixel_characteristic_value(&px(0, 0, 0)), 0);
    assert_eq!(c.get_pixel_characteristic_value(&px(255, 255, 255)), 255);
}

#[test]
fn hue_and_saturation_are_always_zero() {
    for p in [px(0, 0, 0), px(255, 0, 0), px(12, 200, 99), px(255, 255, 255)] {
        assert_eq!(PixelCharacteristic::Hue.get_pixel_characteristic_value(&p), 0);
        assert_eq!(PixelCharacteristic::Saturation.get_pixel_characteristic_value(&p), 0);
    }
}

#[test]
fn channels_pass_through() {
    let p = Pixel::new(11, 22, 33, 44);
    assert_eq!(PixelCharacteristic::Red.get_pixel_characteristic_value(&p), 11);
    assert_eq!(PixelCharacteristic::Green.get_pixel_characteristic_value(&p), 22);
    assert_eq!(PixelCharacteristic::Blue.get_pixel_characteristic_value(&p), 33);
}

#[test]
fn compare_looks_at_the_characteristic_only() {
    let c = PixelCharacteristic::Red;
    assert_eq!(c.compare(&px(1, 9, 9), &px(2, 0, 0)), Ordering::Less);
    assert_eq!(c.compare(&px(2, 0, 0), &px(1, 9, 9)), Ordering::Greater);
    assert_eq!(c.compare(&px(5, 1, 2), &px(5, 200, 100)), Ordering::Equal);
}

#[test]
fn order_breaks_ties_by_channels() {
    let c = PixelCharacteristic::Average;
    // same average 20, different red
    assert_eq!(c.order(&px(10, 20, 30), &px(30, 20, 10)), Ordering::Less);
    assert_eq!(c.order(&px(30, 20, 10), &px(10, 20, 30)), Ordering::Greater);
    assert_eq!(c.order(&px(10, 20, 30), &px(10, 20, 30)), Ordering::Equal);
    // the characteristic comes first
    assert_eq!(c.order(&px(200, 0, 0), &px(0, 100, 130)), Ordering::Less);
    // alpha is the last tie-break
    assert_eq!(
        c.order(&Pixel::new(1, 2, 3, 4), &Pixel::new(1, 2, 3, 5)),
        Ordering::Less
    );
    assert_eq!(c.order(&px(10, 30, 20), &px(10, 20, 30)), Ordering::Greater);
    assert_eq!(c.order(&px(10, 20, 29), &px(10, 19, 30)), Ordering::Greater);
}

#[test]
fn threshold_contains_is_a_closed_range() {
    let t = Threshold { min: 10, max: 20, threshold_type: PixelCharacteristic::Average, invert: false };
    assert!(!t.contains(9));
    assert!(t.contains(10));
    assert!(t.contains(15));
    assert!(t.contains(20));
    assert!(!t.contains(21));
}

#[test]
fn threshold_with_min_above_max_selects_nothing() {
    let t = Threshold { min: 200, max: 100, threshold_type: PixelCharacteristic::Red, invert: false };
    for v in [0u8, 99, 100, 150, 200, 201, 255] {
        assert!(!t.contains(v));
        assert!(!t.is_selected(&px(v, 0, 0)));
    }
}

#[test]
fn inverted_threshold_selects_the_outside() {
    let t = Threshold { min: 10, max: 20, threshold_type: PixelCharacteristic::Red, invert: true };
    assert!(t.is_selected(&px(9, 0, 0)));
    assert!(!t.is_selected(&px(10, 0, 0)));
    assert!(!t.is_selected(&px(20, 0, 0)));
    assert!(t.is_selected(&px(21, 0, 0)));
}

#[test]
fn inverted_full_range_selects_nothing() {
    let t = Threshold { min: 0, max: 255, threshold_type: PixelCharacteristic::Green, invert: true };
    for v in [0u8, 1, 128, 254, 255] {
        assert!(!t.is_selected(&px(0, v, 0)));
    }
}

#[test]
fn filter_and_sort_characteristics_are_independent() {
    let t = Threshold { min: 100, max: 255, threshold_type: PixelCharacteristic::Blue, invert: false };
    assert!(t.is_selected(&px(0, 0, 100)));
    assert!(!t.is_selected(&px(255, 255, 99)));
}

#[test]
fn default_threshold_selects_everything() {
    let t = Threshold::default();
    assert_eq!((t.min, t.max, t.invert), (0, 255, false));
    assert_eq!(t.threshold_type, PixelCharacteristic::Average);
    assert!(t.is_selected(&px(0, 0, 0)));
    assert!(t.is_selected(&px(255, 255, 255)));
}

#[test]
fn default_settings() {
    let s = Settings::default();
    assert_eq!(s.sort_path_angle, 45_000);
    assert_eq!(s.sort_path, SortingPath::Linear);
    assert_eq!(s.threshold, Threshold::default());
    assert_eq!(s.sort_by, PixelCharacteristic::Average);
}

#[test]
fn characteristics_have_names() {
    assert_eq!(PixelCharacteristic::Average.name(), "Average");
    assert_eq!(PixelCharacteristic::Luminance.name(), "Luminosity");
    assert_eq!(PixelCharacteristic::Hue.name(), "Hue");
    assert_eq!(PixelCharacteristic::Saturation.name(), "Saturation");
    assert_eq!(PixelCharacteristic::Red.name(), "Red");
    assert_eq!(PixelCharacteristic::Green.name(), "Green");
    assert_eq!(PixelCharacteristic::Blue.name(), "Blue");
}
