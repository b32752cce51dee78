//! The ways of laying lines across an image, and a pass along each.

use vstd::prelude::*;
use vstd::std_specs::cmp::PartialEqSpecImpl;
use crate::grid::{Image, ImageView};
use crate::passes::{
    is_row_sorted,
    is_slant_sorted,
    lemma_row_sorted_is_unique,
    lemma_slant_sorted_is_unique,
    sort_rows,
    sort_slanted,
};
use crate::slant::Tangent;
use crate::sort_algos::SortMethod;

verus! {

/// A quarter turn, in thousandths of a degree.
pub const QUARTER_TURN: u32 = 90_000;

/// How close to a multiple of a quarter turn an angle counts as that
/// multiple: a hundredth of a degree, in thousandths of a degree.
pub const AXIS_TOLERANCE: u32 = 10;

/// The angle `angle`, in thousandths of a degree, is a multiple of a
/// quarter turn or within the tolerance of one. Lines at such an angle are
/// taken to run along the rows.
pub open spec fn is_axis_aligned(angle: u32) -> bool {
    angle % 90_000 <= 10 || angle % 90_000 >= 89_990
}

/// A way of laying lines across an image and sorting along each of them.
pub trait Sorter<S: SortMethod> {
    /// `after` is what a pass leaves of `before`. `tangent` is the tangent
    /// of the angle of the lines, for the ways that have an angle.
    spec fn sorts_image(
        &self,
        before: ImageView,
        after: ImageView,
        sorter: S,
        tangent: Tangent,
    ) -> bool;

    /// A pass has one outcome only.
    proof fn lemma_sorts_image(
        &self,
        before: ImageView,
        first: ImageView,
        second: ImageView,
        sorter: S,
        tangent: Tangent,
    )
        requires
            before.wf(),
            self.sorts_image(before, first, sorter, tangent),
            self.sorts_image(before, second, sorter, tangent),
        ensures
            first == second,
    ;

    /// Sorts `image` along every line with `sorter`. The caller supplies
    /// the tangent of the angle of the lines; a way without an angle does
    /// not look at it.
    fn sort_image(&self, image: &mut Image, sorter: S, tangent: Tangent)
        requires
            old(image).wf(),
        ensures
            final(image).wf(),
            self.sorts_image(old(image)@, final(image)@, sorter, tangent),
    ;
}

/// The lines are the rows of the image.
#[derive(Clone, Copy, Debug, PartialEq, Eq, Structural)]
pub struct ScanlineSorter;

impl<S: SortMethod> Sorter<S> for ScanlineSorter {
    open spec fn sorts_image(
        &self,
        before: ImageView,
        after: ImageView,
        sorter: S,
        tangent: Tangent,
    ) -> bool {
        is_row_sorted(before, after, sorter)
    }

    proof fn lemma_sorts_image(
        &self,
        before: ImageView,
        first: ImageView,
        second: ImageView,
        sorter: S,
        tangent: Tangent,
    ) {
        lemma_row_sorted_is_unique(before, first, second, sorter);
    }

    fn sort_image(&self, image: &mut Image, sorter: S, tangent: Tangent) {
        sort_rows(image, &sorter);
    }
}

/// The lines cross the image at an angle to its rows.
#[derive(Clone, Copy, Debug, PartialEq, Eq, Structural)]
pub struct AngledSorter {
    /// The angle between the lines and the rows, in thousandths of a degree.
    pub angle: u32,
}

impl AngledSorter {
    /// Tests whether the lines run along the rows: whether the angle is a
    /// multiple of a quarter turn, or within the tolerance of one.
    pub fn is_axis_aligned(&self) -> (aligned: bool)
        ensures
            aligned == is_axis_aligned(self.angle),
    {
        let off_axis: u32 = self.angle % QUARTER_TURN;
        off_axis <= AXIS_TOLERANCE || off_axis >= QUARTER_TURN - AXIS_TOLERANCE
    }
}

impl<S: SortMethod> Sorter<S> for AngledSorter {
    open spec fn sorts_image(
        &self,
        before: ImageView,
        after: ImageView,
        sorter: S,
        tangent: Tangent,
    ) -> bool {
        if is_axis_aligned(self.angle) {
            is_row_sorted(before, after, sorter)
        } else {
            is_slant_sorted(before, after, sorter, tangent)
        }
    }

    proof fn lemma_sorts_image(
        &self,
        before: ImageView,
        first: ImageView,
        second: ImageView,
        sorter: S,
        tangent: Tangent,
    ) {
        if is_axis_aligned(self.angle) {
            lemma_row_sorted_is_unique(before, first, second, sorter);
        } else {
            lemma_slant_sorted_is_unique(before, first, second, sorter, tangent);
        }
    }

    fn sort_image(&self, image: &mut Image, sorter: S, tangent: Tangent) {
        if self.is_axis_aligned() {
            sort_rows(image, &sorter);
        } else {
            sort_slanted(image, &sorter, tangent);
        }
    }
}

/// The ways of laying lines to choose from.
#[derive(Clone, Copy, Debug)]
pub enum AvailableLineAlgos {
    Scanline(ScanlineSorter),
    Angled(AngledSorter),
}

impl AvailableLineAlgos {
    /// Two choices are of the same kind when they name the same way of
    /// laying lines, whatever its angle.
    pub open spec fn same_kind(self, other: AvailableLineAlgos) -> bool {
        match (self, other) {
            (AvailableLineAlgos::Scanline(_), AvailableLineAlgos::Scanline(_)) => true,
            (AvailableLineAlgos::Angled(_), AvailableLineAlgos::Angled(_)) => true,
            _ => false,
        }
    }
}

impl<S: SortMethod> Sorter<S> for AvailableLineAlgos {
    open spec fn sorts_image(
        &self,
        before: ImageView,
        after: ImageView,
        sorter: S,
        tangent: Tangent,
    ) -> bool {
        match self {
            AvailableLineAlgos::Scanline(line_alg) => line_alg.sorts_image(
                before,
                after,
                sorter,
                tangent,
            ),
            AvailableLineAlgos::Angled(line_alg) => line_alg.sorts_image(
                before,
                after,
                sorter,
                tangent,
            ),
        }
    }

    proof fn lemma_sorts_image(
        &self,
        before: ImageView,
        first: ImageView,
        second: ImageView,
        sorter: S,
        tangent: Tangent,
    ) {
        match self {
            AvailableLineAlgos::Scanline(line_alg) => line_alg.lemma_sorts_image(
                before,
                first,
                second,
                sorter,
                tangent,
            ),
            AvailableLineAlgos::Angled(line_alg) => line_alg.lemma_sorts_image(
                before,
                first,
                second,
                sorter,
                tangent,
            ),
        }
    }

    fn sort_image(&self, image: &mut Image, sorter: S, tangent: Tangent) {
        match self {
            AvailableLineAlgos::Scanline(line_alg) => {
                line_alg.sort_image(image, sorter, tangent);
            },
            AvailableLineAlgos::Angled(line_alg) => line_alg.sort_image(image, sorter, tangent),
        }
    }
}

impl PartialEq for AvailableLineAlgos {
    /// Two choices are equal when they are of the same kind.
    fn eq(&self, other: &Self) -> (equal: bool) {
        match (self, other) {
            (AvailableLineAlgos::Scanline(_), AvailableLineAlgos::Scanline(_)) => true,
            (AvailableLineAlgos::Angled(_), AvailableLineAlgos::Angled(_)) => true,
            _ => false,
        }
    }
}

impl PartialEqSpecImpl for AvailableLineAlgos {
    open spec fn obeys_eq_spec() -> bool {
        true
    }

    open spec fn eq_spec(&self, other: &Self) -> bool {
        self.same_kind(*other)
    }
}

impl AvailableLineAlgos {
    /// The lines of a pass are the rows of the image: the choice is the
    /// scanline, or an angle that counts as a multiple of a quarter turn.
    pub open spec fn runs_along_rows(self) -> bool {
        match self {
            AvailableLineAlgos::Scanline(_) => true,
            AvailableLineAlgos::Angled(line_alg) => is_axis_aligned(line_alg.angle),
        }
    }

    /// Tests whether the lines of a pass are the rows of the image.
    pub fn follows_rows(&self) -> (rows: bool)
        ensures
            rows == self.runs_along_rows(),
    {
        match self {
            AvailableLineAlgos::Scanline(_) => true,
            AvailableLineAlgos::Angled(line_alg) => line_alg.is_axis_aligned(),
        }
    }

    /// What a pass leaves of an image depends on the tangent only where
    /// the lines do not run along the rows.
    pub proof fn lemma_rows_ignore_tangent<S: SortMethod>(
        self,
        before: ImageView,
        after: ImageView,
        sorter: S,
        tangent: Tangent,
    )
        requires
            self.runs_along_rows(),
        ensures
            self.sorts_image(before, after, sorter, tangent) == is_row_sorted(
                before,
                after,
                sorter,
            ),
    {
    }

    /// The name of the kind of lines.
    pub fn name(&self) -> (name: &'static str)
        ensures
            name@ == match self {
                AvailableLineAlgos::Scanline(_) => "ScanLine"@,
                AvailableLineAlgos::Angled(_) => "AngledLine"@,
            },
    {
        match self {
            AvailableLineAlgos::Scanline(_) => "ScanLine",
            AvailableLineAlgos::Angled(_) => "AngledLine",
        }
    }
}

impl Default for AvailableLineAlgos {
    fn default() -> (algo: AvailableLineAlgos)
        ensures
            algo == AvailableLineAlgos::Scanline(ScanlineSorter),
    {
        AvailableLineAlgos::Scanline(ScanlineSorter)
    }
}

} // verus!
