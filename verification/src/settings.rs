//! The settings of a sort: which pixels take part, and by what they are ordered.

use vstd::prelude::*;
use crate::pixel::Pixel;
use crate::pixel_characteristics::PixelCharacteristic;

verus! {

/// Selects pixels by a characteristic and a closed range of its values.
#[derive(Clone, Copy, Debug, PartialEq, Eq, Structural)]
pub struct Threshold {
    /// The least value inside the range.
    pub min: u8,
    /// The greatest value inside the range.
    pub max: u8,
    /// The characteristic that is held against the range.
    pub threshold_type: PixelCharacteristic,
    /// When set, the pixels outside the range are selected instead.
    pub invert: bool,
}

impl Threshold {
    /// `to_check` lies in the closed range from `min` to `max`. With
    /// `min > max` the range is empty.
    pub open spec fn spec_contains(self, to_check: int) -> bool {
        self.min <= to_check <= self.max
    }

    /// The threshold selects `pixel`: its characteristic lies in the range,
    /// or outside it when the threshold is inverted.
    pub open spec fn selects(self, pixel: Pixel) -> bool {
        self.spec_contains(self.threshold_type.value(pixel)) != self.invert
    }

    /// Tests whether `to_check` lies in the closed range from `min` to `max`.
    pub fn contains(&self, to_check: u8) -> (inside: bool)
        ensures
            inside == self.spec_contains(to_check as int),
    {
        (self.min <= to_check) && (to_check <= self.max)
    }

    /// Tests whether the threshold selects `pixel`.
    pub fn is_selected(&self, pixel: &Pixel) -> (selected: bool)
        ensures
            selected == self.selects(*pixel),
    {
        let inside = self.contains(self.threshold_type.get_pixel_characteristic_value(pixel));
        inside != self.invert
    }

    /// A threshold whose range is empty and which is not inverted selects
    /// no pixel at all.
    pub proof fn lemma_empty_range_selects_nothing(self, pixel: Pixel)
        requires
            self.min > self.max,
            !self.invert,
        ensures
            !self.selects(pixel),
    {
    }

    /// An inverted threshold over the full range selects no pixel at all.
    pub proof fn lemma_inverted_full_range_selects_nothing(self, pixel: Pixel)
        requires
            self.min == 0,
            self.max == 255,
            self.invert,
        ensures
            !self.selects(pixel),
    {
    }
}

impl Default for Threshold {
    /// The full range of the average, not inverted: every pixel is selected.
    fn default() -> (threshold: Threshold)
        ensures
            threshold == (Threshold {
                min: 0,
                max: 255,
                threshold_type: PixelCharacteristic::Average,
                invert: false,
            }),
    {
        Threshold { min: 0, max: 255, threshold_type: PixelCharacteristic::Average, invert: false }
    }
}

/// The paths along which an image can be sorted.
#[derive(Clone, Copy, Debug, PartialEq, Eq, Structural)]
pub enum SortingPath {
    /// Straight lines at the angle of the settings.
    Linear,
}

/// Everything that one sort of an image depends on.
#[derive(Clone, Copy, Debug, PartialEq, Eq, Structural)]
pub struct Settings {
    /// The angle between the lines and the rows, in thousandths of a degree.
    pub sort_path_angle: u32,
    pub sort_path: SortingPath,
    pub threshold: Threshold,
    /// The characteristic by which the pixels of a span are ordered.
    pub sort_by: PixelCharacteristic,
}

impl Default for Settings {
    /// Lines at 45 degrees, every pixel selected, ordered by the average.
    fn default() -> (settings: Settings)
        ensures
            settings == (Settings {
                sort_path_angle: 45_000,
                sort_path: SortingPath::Linear,
                threshold: Threshold {
                    min: 0,
                    max: 255,
                    threshold_type: PixelCharacteristic::Average,
                    invert: false,
                },
                sort_by: PixelCharacteristic::Average,
            }),
    {
        Settings {
            sort_path_angle: 45_000,
            sort_path: SortingPath::Linear,
            threshold: Threshold::default(),
            sort_by: PixelCharacteristic::Average,
        }
    }
}

} // verus!
