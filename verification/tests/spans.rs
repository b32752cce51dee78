use pixel_sorter::pixel::Pixel;
use pixel_sorter::pixel_characteristics::PixelCharacteristic;
use pixel_sorter::settings::{Settings, SortingPath, Threshold};
use pixel_sorter::sort_algos::{AvailableSortAlgos, SortMethod, SpanSortConfig, SpanSortMethod};
use pixel_sorter::sorter::{sort_pixels_in_line, sort_pixels_in_line_new};
use pixel_sorter::span::{partition_spans, sort_spans, Span};

fn grey(v: u8) -> Pixel {
    Pixel::new(v, v, v, 255)
}

fn greys(values: &[u8]) -> Vec<Pixel> {
    values.iter().map(|v| grey(*v)).collect()
}

fn averages(line: &[Pixel]) -> Vec<u8> {
    line.iter().map(|p| PixelCharacteristic::Average.get_pixel_characteristic_value(p)).collect()
}

fn range(min: u8, max: u8) -> Threshold {
    Threshold { min, max, threshold_type: PixelCharacteristic::Average, invert: false }
}

fn sorted_copy(mut pixels: Vec<Pixel>) -> Vec<Pixel> {
    pixels.sort_by_key(|p| (p.r, p.g, p.b, p.a));
    pixels
}

#[test]
fn full_row_span_is_sorted() {
    let mut line = greys(&[10, 200, 20, 220]);
    sort_spans(&mut line, &range(0, 255), PixelCharacteristic::Average);
    assert_eq!(averages(&line), vec![10, 20, 200, 220]);
}

#[test]
fn spans_apart_are_sorted_apart() {
    let mut line = greys(&[10, 200, 20, 220]);
    let spans = partition_spans(&line, &range(0, 128));
    assert_eq!(spans, vec![Span { start: 0, end: 1 }, Span { start: 2, end: 3 }]);
    sort_spans(&mut line, &range(0, 128), PixelCharacteristic::Average);
    assert_eq!(averages(&line), vec![10, 200, 20, 220]);
}

#[test]
fn all_selected_is_one_span() {
    let line = greys(&[5, 4, 3, 2, 1]);
    assert_eq!(partition_spans(&line, &range(0, 255)), vec![Span { start: 0, end: 5 }]);
}

#[test]
fn none_selected_is_no_span() {
    let line = greys(&[5, 4, 3, 2, 1]);
    assert_eq!(partition_spans(&line, &range(100, 255)), vec![]);
    assert_eq!(partition_spans(&line, &range(200, 100)), vec![]);
}

#[test]
fn empty_line_has_no_span() {
    let mut line: Vec<Pixel> = Vec::new();
    assert_eq!(partition_spans(&line, &range(0, 255)), vec![]);
    sort_spans(&mut line, &range(0, 255), PixelCharacteristic::Average);
    assert!(line.is_empty());
}

#[test]
fn spans_are_maximal_and_in_order() {
    // selected: values up to 50
    let line = greys(&[10, 20, 90, 30, 99, 98, 40, 41, 42]);
    assert_eq!(
        partition_spans(&line, &range(0, 50)),
        vec![Span { start: 0, end: 2 }, Span { start: 3, end: 4 }, Span { start: 6, end: 9 }]
    );
}

#[test]
fn singleton_span_sorts_to_itself() {
    let mut line = greys(&[200, 10, 220]);
    sort_spans(&mut line, &range(0, 50), PixelCharacteristic::Average);
    assert_eq!(averages(&line), vec![200, 10, 220]);
}

#[test]
fn unselected_pixels_stay_in_place() {
    let before = greys(&[30, 10, 250, 20, 5, 251, 9, 8]);
    let mut line = before.clone();
    sort_spans(&mut line, &range(0, 100), PixelCharacteristic::Average);
    assert_eq!(averages(&line), vec![10, 30, 250, 5, 20, 251, 8, 9]);
    assert_eq!(line[2], before[2]);
    assert_eq!(line[5], before[5]);
}

#[test]
fn nothing_selected_changes_nothing() {
    let before = greys(&[9, 3, 7, 1]);
    let mut line = before.clone();
    sort_spans(&mut line, &range(100, 200), PixelCharacteristic::Average);
    assert_eq!(line, before);
    let mut line = before.clone();
    sort_spans(&mut line, &range(200, 100), PixelCharacteristic::Average);
    assert_eq!(line, before);
    let inverted = Threshold { min: 0, max: 255, threshold_type: PixelCharacteristic::Average, invert: true };
    let mut line = before.clone();
    sort_spans(&mut line, &inverted, PixelCharacteristic::Average);
    assert_eq!(line, before);
}

#[test]
fn each_span_keeps_its_pixels() {
    let before: Vec<Pixel> = vec![
        Pixel::new(9, 0, 0, 1),
        Pixel::new(3, 7, 0, 2),
        Pixel::new(3, 0, 7, 3),
        Pixel::new(200, 200, 200, 4),
        Pixel::new(8, 8, 8, 5),
        Pixel::new(1, 1, 1, 6),
    ];
    let threshold = range(0, 100);
    let mut line = before.clone();
    sort_spans(&mut line, &threshold, PixelCharacteristic::Average);
    for span in partition_spans(&before, &threshold) {
        assert_eq!(
            sorted_copy(line[span.start..span.end].to_vec()),
            sorted_copy(before[span.start..span.end].to_vec())
        );
    }
    assert_eq!(line[3], before[3]);
}

#[test]
fn each_span_is_ascending() {
    let before = greys(&[90, 80, 70, 255, 60, 50, 254, 3, 2, 1, 0]);
    let threshold = range(0, 100);
    let mut line = before.clone();
    sort_spans(&mut line, &threshold, PixelCharacteristic::Average);
    for span in partition_spans(&before, &threshold) {
        for i in span.start..span.end - 1 {
            assert!(
                PixelCharacteristic::Average.get_pixel_characteristic_value(&line[i])
                    <= PixelCharacteristic::Average.get_pixel_characteristic_value(&line[i + 1])
            );
        }
    }
    assert_eq!(averages(&line), vec![70, 80, 90, 255, 50, 60, 254, 0, 1, 2, 3]);
}

#[test]
fn sorting_is_by_the_sort_characteristic_not_the_threshold_one() {
    // selected by red, ordered by blue
    let threshold = Threshold { min: 100, max: 255, threshold_type: PixelCharacteristic::Red, invert: false };
    let mut line = vec![
        Pixel::new(200, 0, 30, 255),
        Pixel::new(100, 0, 20, 255),
        Pixel::new(0, 0, 1, 255),
        Pixel::new(150, 0, 10, 255),
    ];
    sort_spans(&mut line, &threshold, PixelCharacteristic::Blue);
    let blues: Vec<u8> = line.iter().map(|p| p.b).collect();
    assert_eq!(blues, vec![20, 30, 1, 10]);
}

#[test]
fn inverted_threshold_sorts_the_outside() {
    let threshold = Threshold { min: 100, max: 255, threshold_type: PixelCharacteristic::Average, invert: true };
    let mut line = greys(&[30, 20, 200, 10, 5]);
    sort_spans(&mut line, &threshold, PixelCharacteristic::Average);
    assert_eq!(averages(&line), vec![20, 30, 200, 5, 10]);
}

#[test]
fn ties_are_ordered_by_channels() {
    // all have average 20
    let mut line = vec![
        Pixel::new(30, 20, 10, 255),
        Pixel::new(20, 20, 20, 255),
        Pixel::new(10, 20, 30, 255),
        Pixel::new(10, 20, 30, 7),
    ];
    sort_spans(&mut line, &range(0, 255), PixelCharacteristic::Average);
    assert_eq!(
        line,
        vec![
            Pixel::new(10, 20, 30, 7),
            Pixel::new(10, 20, 30, 255),
            Pixel::new(20, 20, 20, 255),
            Pixel::new(30, 20, 10, 255),
        ]
    );
}

#[test]
fn sorting_twice_gives_the_same_line() {
    let before: Vec<Pixel> = (0..200u32)
        .map(|i| Pixel::new((i * 37 % 256) as u8, (i * 91 % 256) as u8, (i * 13 % 256) as u8, (i % 4) as u8))
        .collect();
    let threshold = range(40, 200);
    let mut first = before.clone();
    let mut second = before.clone();
    sort_spans(&mut first, &threshold, PixelCharacteristic::Luminance);
    sort_spans(&mut second, &threshold, PixelCharacteristic::Luminance);
    assert_eq!(first, second);
    assert_eq!(sorted_copy(first.clone()), sorted_copy(before.clone()));
    assert_ne!(first, before);
}

#[test]
fn a_long_span_is_sorted() {
    let mut line: Vec<Pixel> = (0..5000u32).map(|i| grey((i * 7919 % 251) as u8)).collect();
    sort_spans(&mut line, &range(0, 255), PixelCharacteristic::Average);
    let values = averages(&line);
    assert!(values.windows(2).all(|w| w[0] <= w[1]));
    assert_eq!(values[0], 0);
    assert_eq!(values[4999], 250);
}

#[test]
fn sort_pixels_in_line_follows_the_settings() {
    let settings = Settings {
        sort_path_angle: 0,
        sort_path: SortingPath::Linear,
        threshold: range(0, 128),
        sort_by: PixelCharacteristic::Average,
    };
    let mut line = greys(&[100, 50, 200, 30, 20, 10]);
    sort_pixels_in_line(&settings, &mut line);
    assert_eq!(averages(&line), vec![50, 100, 200, 10, 20, 30]);
    let mut line = greys(&[100, 50, 200, 30, 20, 10]);
    sort_pixels_in_line_new(&settings, &mut line);
    assert_eq!(averages(&line), vec![50, 100, 200, 10, 20, 30]);
}

#[test]
fn span_sort_method_sorts_a_line() {
    let method = SpanSortMethod {
        config: SpanSortConfig { threshold: range(0, 255), sorting_method: PixelCharacteristic::Average },
    };
    let mut line = greys(&[10, 200, 20, 220]);
    method.sort(&mut line);
    assert_eq!(averages(&line), vec![10, 20, 200, 220]);
    let mut line = greys(&[3, 2, 1]);
    AvailableSortAlgos::SpanSort(method).sort(&mut line);
    assert_eq!(averages(&line), vec![1, 2, 3]);
}

#[test]
fn default_span_sort_selects_everything_by_average() {
    let config = SpanSortConfig::default();
    assert_eq!(config.threshold, Threshold::default());
    assert_eq!(config.sorting_method, PixelCharacteristic::Average);
    assert_eq!(SpanSortMethod::default().config, config);
    match AvailableSortAlgos::default() {
        AvailableSortAlgos::SpanSort(method) => assert_eq!(method.config, config),
    }
    assert_eq!(AvailableSortAlgos::default().name(), "SpanSort");
    assert!(AvailableSortAlgos::default() == AvailableSortAlgos::SpanSort(SpanSortMethod {
        config: SpanSortConfig { threshold: range(3, 4), sorting_method: PixelCharacteristic::Red },
    }));
}
