//! The ways of sorting the pixels of one line.

use vstd::prelude::*;
use vstd::std_specs::cmp::PartialEqSpecImpl;
use crate::pixel::Pixel;
use crate::pixel_characteristics::PixelCharacteristic;
use crate::settings::Threshold;
use crate::span::{is_span_sorted, lemma_span_sorted_is_unique, sort_spans};

verus! {

/// A way of sorting the pixels of one line in place.
pub trait SortMethod {
    /// `after` is what sorting leaves of the line `before`.
    spec fn sorts(&self, before: Seq<Pixel>, after: Seq<Pixel>) -> bool;

    /// Sorting keeps the length of a line, and a line has one outcome only.
    proof fn lemma_sorts(&self, before: Seq<Pixel>, first: Seq<Pixel>, second: Seq<Pixel>)
        requires
            self.sorts(before, first),
            self.sorts(before, second),
        ensures
            first.len() == before.len(),
            first == second,
    ;

    /// Sorts the line `pixels` in place.
    fn sort(&self, pixels: &mut Vec<Pixel>)
        ensures
            self.sorts(old(pixels)@, final(pixels)@),
    ;
}

/// The settings of a span sort.
#[derive(Clone, Copy, Debug, PartialEq, Eq, Structural)]
pub struct SpanSortConfig {
    /// Which pixels take part: the runs of selected pixels are the spans.
    pub threshold: Threshold,
    /// The characteristic by which the pixels of a span are ordered.
    pub sorting_method: PixelCharacteristic,
}

impl Default for SpanSortConfig {
    /// Every pixel takes part, and pixels are ordered by their average.
    fn default() -> (config: SpanSortConfig)
        ensures
            config == (SpanSortConfig {
                threshold: Threshold {
                    min: 0,
                    max: 255,
                    threshold_type: PixelCharacteristic::Average,
                    invert: false,
                },
                sorting_method: PixelCharacteristic::Average,
            }),
    {
        SpanSortConfig {
            threshold: Threshold::default(),
            sorting_method: PixelCharacteristic::Average,
        }
    }
}

/// Sorts the pixels of every span of a line and leaves the others alone.
#[derive(Clone, Copy, Debug, PartialEq, Eq, Structural)]
pub struct SpanSortMethod {
    pub config: SpanSortConfig,
}

impl Default for SpanSortMethod {
    fn default() -> (method: SpanSortMethod)
        ensures
            method.config == (SpanSortConfig {
                threshold: Threshold {
                    min: 0,
                    max: 255,
                    threshold_type: PixelCharacteristic::Average,
                    invert: false,
                },
                sorting_method: PixelCharacteristic::Average,
            }),
    {
        SpanSortMethod { config: SpanSortConfig::default() }
    }
}

impl SortMethod for SpanSortMethod {
    open spec fn sorts(&self, before: Seq<Pixel>, after: Seq<Pixel>) -> bool {
        is_span_sorted(before, after, self.config.threshold, self.config.sorting_method)
    }

    proof fn lemma_sorts(&self, before: Seq<Pixel>, first: Seq<Pixel>, second: Seq<Pixel>) {
        lemma_span_sorted_is_unique(
            before,
            first,
            second,
            self.config.threshold,
            self.config.sorting_method,
        );
    }

    fn sort(&self, pixels: &mut Vec<Pixel>) {
        sort_spans(pixels, &self.config.threshold, self.config.sorting_method);
    }
}

/// The sorting methods to choose from.
#[derive(Clone, Copy, Debug)]
pub enum AvailableSortAlgos {
    SpanSort(SpanSortMethod),
}

impl SortMethod for AvailableSortAlgos {
    open spec fn sorts(&self, before: Seq<Pixel>, after: Seq<Pixel>) -> bool {
        match self {
            AvailableSortAlgos::SpanSort(sort_algo) => sort_algo.sorts(before, after),
        }
    }

    proof fn lemma_sorts(&self, before: Seq<Pixel>, first: Seq<Pixel>, second: Seq<Pixel>) {
        match self {
            AvailableSortAlgos::SpanSort(sort_algo) => sort_algo.lemma_sorts(
                before,
                first,
                second,
            ),
        }
    }

    fn sort(&self, pixels: &mut Vec<Pixel>) {
        match self {
            AvailableSortAlgos::SpanSort(sort_algo) => sort_algo.sort(pixels),
        }
    }
}

impl Default for AvailableSortAlgos {
    fn default() -> (algo: AvailableSortAlgos)
        ensures
            algo == AvailableSortAlgos::SpanSort(
                SpanSortMethod {
                    config: SpanSortConfig {
                        threshold: Threshold {
                            min: 0,
                            max: 255,
                            threshold_type: PixelCharacteristic::Average,
                            invert: false,
                        },
                        sorting_method: PixelCharacteristic::Average,
                    },
                },
            ),
    {
        AvailableSortAlgos::SpanSort(SpanSortMethod::default())
    }
}

impl PartialEq for AvailableSortAlgos {
    /// Two choices are equal when they are of the same kind.
    fn eq(&self, other: &Self) -> (equal: bool) {
        match (self, other) {
            (AvailableSortAlgos::SpanSort(_), AvailableSortAlgos::SpanSort(_)) => true,
        }
    }
}

impl PartialEqSpecImpl for AvailableSortAlgos {
    open spec fn obeys_eq_spec() -> bool {
        true
    }

    open spec fn eq_spec(&self, other: &Self) -> bool {
        self.same_kind(*other)
    }
}

impl AvailableSortAlgos {
    /// The name of the sorting method.
    pub fn name(&self) -> (name: &'static str)
        ensures
            name@ == match self {
                AvailableSortAlgos::SpanSort(_) => "SpanSort"@,
            },
    {
        match self {
            AvailableSortAlgos::SpanSort(_) => "SpanSort",
        }
    }

    /// Two choices are of the same kind when they name the same method,
    /// whatever its settings.
    pub open spec fn same_kind(self, other: AvailableSortAlgos) -> bool {
        match (self, other) {
            (AvailableSortAlgos::SpanSort(_), AvailableSortAlgos::SpanSort(_)) => true,
        }
    }
}

} // verus!
