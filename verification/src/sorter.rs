//! A sorter that keeps an image together with the image it was opened as.

use vstd::prelude::*;
use crate::grid::Image;
use crate::pixel::Pixel;
use crate::settings::{Settings, SortingPath};
use crate::slant::Tangent;
use crate::sort_algos::{SpanSortConfig, SpanSortMethod};
use crate::sorters::AngledSorter;
use crate::span::{is_span_sorted, sort_spans};

verus! {

/// An image under work, the image as it was opened, and the settings of
/// the next sort.
pub struct Sorter {
    pub original_image: Image,
    pub current_image: Image,
    pub settings: Settings,
}

/// The span sort that `settings` ask for.
pub open spec fn span_sort_of(settings: Settings) -> SpanSortMethod {
    SpanSortMethod {
        config: SpanSortConfig { threshold: settings.threshold, sorting_method: settings.sort_by },
    }
}

impl Sorter {
    /// Both images hold one pixel for every column of every row.
    pub open spec fn wf(&self) -> bool {
        self.original_image.wf() && self.current_image.wf()
    }

    /// Sorts the current image along the path of the settings. `tangent`
    /// is the tangent of the angle of the settings.
    pub fn sort(&mut self, tangent: Tangent)
        requires
            old(self).wf(),
        ensures
            final(self).wf(),
            final(self).original_image == old(self).original_image,
            final(self).settings == old(self).settings,
            crate::sorters::Sorter::sorts_image(
                &(AngledSorter { angle: old(self).settings.sort_path_angle }),
                old(self).current_image@,
                final(self).current_image@,
                span_sort_of(old(self).settings),
                tangent,
            ),
    {
        match self.settings.sort_path {
            SortingPath::Linear => {
                self.sort_linear(tangent);
            },
        };
    }

    /// Sorts the current image along straight lines at the angle of the
    /// settings: along slanted lines with the tangent `tangent`, or along
    /// the rows where the angle is a multiple of a quarter turn.
    pub fn sort_linear(&mut self, tangent: Tangent)
        requires
            old(self).wf(),
        ensures
            final(self).wf(),
            final(self).original_image == old(self).original_image,
            final(self).settings == old(self).settings,
            crate::sorters::Sorter::sorts_image(
                &(AngledSorter { angle: old(self).settings.sort_path_angle }),
                old(self).current_image@,
                final(self).current_image@,
                span_sort_of(old(self).settings),
                tangent,
            ),
    {
        let lines = AngledSorter { angle: self.settings.sort_path_angle };
        let method = SpanSortMethod {
            config: SpanSortConfig {
                threshold: self.settings.threshold,
                sorting_method: self.settings.sort_by,
            },
        };
        crate::sorters::Sorter::sort_image(&lines, &mut self.current_image, method, tangent);
    }

    /// Takes `decoded` as the image to work on and as the image to go
    /// back to.
    pub fn open_image(&mut self, decoded: Image)
        ensures
            final(self).original_image == decoded,
            final(self).current_image@ == decoded@,
            final(self).settings == old(self).settings,
            decoded.wf() ==> final(self).wf(),
    {
        self.current_image = decoded.duplicate();
        self.original_image = decoded;
    }

    /// Goes back to the image as it was opened: the current image becomes
    /// a fresh copy of it.
    pub fn reset_current_image(&mut self)
        ensures
            final(self).current_image@ == old(self).original_image@,
            final(self).original_image == old(self).original_image,
            final(self).settings == old(self).settings,
            old(self).original_image.wf() ==> final(self).wf(),
    {
        self.current_image = self.original_image.duplicate();
    }
}

/// Sorts the spans of `line` as `settings` ask: the pixels that the
/// threshold selects are put in ascending order within their span, and
/// all others stay where they are.
pub fn sort_pixels_in_line(settings: &Settings, line: &mut Vec<Pixel>)
    ensures
        is_span_sorted(old(line)@, final(line)@, settings.threshold, settings.sort_by),
{
    sort_spans(line, &settings.threshold, settings.sort_by);
}

/// Sorts the spans of a line that was read into a buffer of its own, as
/// `settings` ask.
pub fn sort_pixels_in_line_new(settings: &Settings, line: &mut Vec<Pixel>)
    ensures
        is_span_sorted(old(line)@, final(line)@, settings.threshold, settings.sort_by),
{
    sort_pixels_in_line(settings, line);
}

} // verus!
