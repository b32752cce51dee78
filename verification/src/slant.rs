//! Slanted lines across the grid: where they run and that they miss nothing.

use vstd::prelude::*;
use crate::grid::lemma_position_is_unique;

verus! {

/// The value of `Tangent::ratio` that stands for a tangent of one.
pub const TANGENT_ONE: i64 = 65536;

/// The tangent of the angle between a slanted line and the rows, as a
/// fixed-point number: `ratio` is the tangent times 65 536, rounded down.
/// A line with this tangent goes down by `ratio / 65 536` rows per column.
#[derive(Clone, Copy, Debug, PartialEq, Eq, Structural)]
pub struct Tangent {
    pub ratio: i64,
}

/// How many rows a line with tangent `tangent` has gone down when it
/// reaches column `x`: the product of the two, rounded down to the next
/// whole number, also where it is negative.
pub open spec fn rise(tangent: Tangent, x: int) -> int {
    (x * tangent.ratio) / 65536
}

/// The row in which the line with row origin `row_origin` crosses column `x`.
pub open spec fn line_row(tangent: Tangent, x: int, row_origin: int) -> int {
    rise(tangent, x) + row_origin
}

/// The least row origin of a pass over a grid `width` columns wide.
pub open spec fn first_origin(tangent: Tangent, width: int) -> int {
    if rise(tangent, width) > 0 {
        -rise(tangent, width)
    } else {
        0
    }
}

/// The end of the row origins of a pass over a grid of `width` by `height`:
/// the lines of a pass have the row origins from `first_origin` up to, but
/// not including, this one.
pub open spec fn end_origin(tangent: Tangent, width: int, height: int) -> int {
    if rise(tangent, width) > 0 {
        height
    } else {
        height - rise(tangent, width)
    }
}

/// The line with row origin `row_origin` visits column `x`: it crosses the
/// column inside the grid and below the top row.
pub open spec fn visits(tangent: Tangent, height: int, x: int, row_origin: int) -> bool {
    0 < line_row(tangent, x, row_origin) < height
}

/// The rise grows with the column when the tangent is not negative, and
/// falls with it when the tangent is not positive.
pub proof fn lemma_rise_is_monotonic(tangent: Tangent, x1: int, x2: int)
    requires
        x1 <= x2,
    ensures
        tangent.ratio >= 0 ==> rise(tangent, x1) <= rise(tangent, x2),
        tangent.ratio <= 0 ==> rise(tangent, x1) >= rise(tangent, x2),
{
    let ratio = tangent.ratio as int;
    if ratio >= 0 {
        assert(x1 * ratio <= x2 * ratio) by (nonlinear_arith)
            requires
                x1 <= x2,
                ratio >= 0,
        ;
    }
    if ratio <= 0 {
        assert(x1 * ratio >= x2 * ratio) by (nonlinear_arith)
            requires
                x1 <= x2,
                ratio <= 0,
        ;
    }
}

/// Every pixel below the top row lies on a line of the pass: the line whose
/// row origin is the pixel's row less the rise at its column.
pub proof fn lemma_every_pixel_is_visited(
    tangent: Tangent,
    width: int,
    height: int,
    x: int,
    y: int,
)
    requires
        0 <= x < width,
        0 < y < height,
    ensures
        first_origin(tangent, width) <= y - rise(tangent, x) < end_origin(
            tangent,
            width,
            height,
        ),
        visits(tangent, height, x, y - rise(tangent, x)),
        line_row(tangent, x, y - rise(tangent, x)) == y,
{
    lemma_rise_is_monotonic(tangent, 0, x);
    lemma_rise_is_monotonic(tangent, x, width);
}

/// No pixel lies on two lines of a pass: the line through a pixel is fixed
/// by the pixel's column and row.
pub proof fn lemma_lines_do_not_cross(
    tangent: Tangent,
    width: int,
    x1: int,
    origin1: int,
    x2: int,
    origin2: int,
)
    requires
        0 <= x1 < width,
        0 <= x2 < width,
        line_row(tangent, x1, origin1) * width + x1 == line_row(tangent, x2, origin2) * width
            + x2,
    ensures
        x1 == x2,
        origin1 == origin2,
{
    lemma_position_is_unique(
        width,
        x1,
        line_row(tangent, x1, origin1),
        x2,
        line_row(tangent, x2, origin2),
    );
}

/// The rise over a grid that fits in memory stays far inside the range of
/// the integers it is computed in.
pub proof fn lemma_rise_is_bounded(tangent: Tangent, x: int)
    requires
        0 <= x <= usize::MAX,
    ensures
        -0x8000_0000_0000_0000_0000_0000_0000 <= rise(tangent, x)
            <= 0x8000_0000_0000_0000_0000_0000_0000,
{
    let ratio = tangent.ratio as int;
    assert(-0x7fff_ffff_ffff_ffff_8000_0000_0000_0000 <= x * ratio
        <= 0x7fff_ffff_ffff_ffff_8000_0000_0000_0000) by (nonlinear_arith)
        requires
            0 <= x <= 0xffff_ffff_ffff_ffff,
            -0x8000_0000_0000_0000 <= ratio <= 0x7fff_ffff_ffff_ffff,
    ;
}

impl Tangent {
    /// Computes the rise at column `x`.
    pub fn rise_at(&self, x: usize) -> (rows: i128)
        ensures
            rows == rise(*self, x as int),
            -0x8000_0000_0000_0000_0000_0000_0000 <= rows <= 0x8000_0000_0000_0000_0000_0000_0000,
    {
        let ratio: i128 = self.ratio as i128;
        let column: i128 = x as i128;
        assert(-0x7fff_ffff_ffff_ffff_8000_0000_0000_0000 <= column * ratio
            <= 0x7fff_ffff_ffff_ffff_8000_0000_0000_0000) by (nonlinear_arith)
            requires
                0 <= column <= 0xffff_ffff_ffff_ffff,
                -0x8000_0000_0000_0000 <= ratio <= 0x7fff_ffff_ffff_ffff,
        ;
        let product: i128 = column * ratio;
        if product >= 0 {
            product / 65536
        } else {
            let above: i128 = (65535 - product) / 65536;
            -above
        }
    }
    /// Computes the row origins of a pass over a grid of `width` by
    /// `height`: the first one, and the one at which they end.
    pub fn origin_range(&self, width: usize, height: usize) -> (range: (i128, i128))
        ensures
            range.0 == first_origin(*self, width as int),
            range.1 == end_origin(*self, width as int, height as int),
            range.0 <= range.1,
    {
        let extra_height: i128 = self.rise_at(width);
        if extra_height > 0 {
            (-extra_height, height as i128)
        } else {
            (0, height as i128 - extra_height)
        }
    }
}

} // verus!
