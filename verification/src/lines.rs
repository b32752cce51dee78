//! The pixels along a slanted line: where they lie in the grid, how they
//! are read into a buffer of their own and how a buffer is written back.

use vstd::prelude::*;
use crate::grid::lemma_position_is_unique;
use crate::pixel::Pixel;
use crate::slant::{lemma_rise_is_bounded, line_row, visits, Tangent};

verus! {

/// The columns below `limit` that the line with row origin `row_origin`
/// visits, from left to right.
pub open spec fn line_columns(tangent: Tangent, height: int, row_origin: int, limit: int) -> Seq<
    int,
>
    decreases limit,
{
    if limit <= 0 {
        Seq::empty()
    } else if visits(tangent, height, limit - 1, row_origin) {
        line_columns(tangent, height, row_origin, limit - 1).push(limit - 1)
    } else {
        line_columns(tangent, height, row_origin, limit - 1)
    }
}

/// Where the pixels of the line with row origin `row_origin` lie in the
/// row-by-row storage of a grid of `width` by `height`, from left to right.
pub open spec fn line_positions(tangent: Tangent, width: int, height: int, row_origin: int) -> Seq<
    int,
> {
    let columns = line_columns(tangent, height, row_origin, width);
    Seq::new(columns.len(), |k: int| line_row(tangent, columns[k], row_origin) * width + columns[k])
}

/// The pixels that `pixels` holds at `positions`, in the order of `positions`.
pub open spec fn pixels_along(pixels: Seq<Pixel>, positions: Seq<int>) -> Seq<Pixel> {
    Seq::new(positions.len(), |k: int| pixels[positions[k]])
}

/// Positions as mathematical integers.
pub open spec fn as_positions(positions: Seq<usize>) -> Seq<int> {
    Seq::new(positions.len(), |k: int| positions[k] as int)
}

/// The columns of a line are columns that the line visits, each of them
/// once and from left to right, and no visited column is left out.
pub proof fn lemma_line_columns(tangent: Tangent, height: int, row_origin: int, limit: int)
    ensures
        forall|k: int|
            0 <= k < line_columns(tangent, height, row_origin, limit).len() ==> {
                let x = #[trigger] line_columns(tangent, height, row_origin, limit)[k];
                0 <= x < limit && visits(tangent, height, x, row_origin)
            },
        forall|j: int, k: int|
            0 <= j < k < line_columns(tangent, height, row_origin, limit).len()
                ==> #[trigger] line_columns(tangent, height, row_origin, limit)[j]
                < #[trigger] line_columns(tangent, height, row_origin, limit)[k],
        forall|x: int|
            0 <= x < limit && #[trigger] visits(tangent, height, x, row_origin) ==> exists|k: int|
                0 <= k < line_columns(tangent, height, row_origin, limit).len()
                    && #[trigger] line_columns(tangent, height, row_origin, limit)[k] == x,
        line_columns(tangent, height, row_origin, limit).len() <= if limit > 0 {
            limit
        } else {
            0
        },
    decreases limit,
{
    if limit > 0 {
        lemma_line_columns(tangent, height, row_origin, limit - 1);
        let rest = line_columns(tangent, height, row_origin, limit - 1);
        let all = line_columns(tangent, height, row_origin, limit);
        assert forall|x: int|
            0 <= x < limit && #[trigger] visits(tangent, height, x, row_origin) implies exists|
            k: int,
        | 0 <= k < all.len() && #[trigger] all[k] == x by {
            if x < limit - 1 {
                let k = choose|k: int| 0 <= k < rest.len() && #[trigger] rest[k] == x;
                assert(all[k] == x);
            } else {
                assert(all[all.len() - 1] == x);
            }
        }
    }
}

/// The positions of a line lie inside the grid and below its top row, and
/// no two of them are the same.
pub proof fn lemma_line_positions(tangent: Tangent, width: int, height: int, row_origin: int)
    requires
        0 <= width,
        0 <= height,
    ensures
        line_positions(tangent, width, height, row_origin).len() <= width,
        forall|k: int|
            0 <= k < line_positions(tangent, width, height, row_origin).len() ==> width
                <= #[trigger] line_positions(tangent, width, height, row_origin)[k] < width
                * height,
        forall|j: int, k: int|
            0 <= j < k < line_positions(tangent, width, height, row_origin).len()
                ==> #[trigger] line_positions(tangent, width, height, row_origin)[j]
                != #[trigger] line_positions(tangent, width, height, row_origin)[k],
{
    lemma_line_columns(tangent, height, row_origin, width);
    let columns = line_columns(tangent, height, row_origin, width);
    let positions = line_positions(tangent, width, height, row_origin);
    assert forall|k: int| 0 <= k < positions.len() implies width <= #[trigger] positions[k] < width
        * height by {
        let x = columns[k];
        let y = line_row(tangent, x, row_origin);
        assert(width <= y * width && y * width + width <= width * height) by (nonlinear_arith)
            requires
                0 <= width,
                1 <= y,
                y + 1 <= height,
        ;
    }
    assert forall|j: int, k: int| 0 <= j < k < positions.len() implies #[trigger] positions[j]
        != #[trigger] positions[k] by {
        if positions[j] == positions[k] {
            lemma_position_is_unique(
                width,
                columns[j],
                line_row(tangent, columns[j], row_origin),
                columns[k],
                line_row(tangent, columns[k], row_origin),
            );
        }
    }
}

/// Finds where the pixels of the line with row origin `row_origin` lie in
/// the storage of a grid of `width` by `height`.
pub fn positions_of_line(
    tangent: Tangent,
    width: usize,
    height: usize,
    row_origin: i128,
) -> (positions: Vec<usize>)
    requires
        width * height <= usize::MAX,
    ensures
        as_positions(positions@) == line_positions(
            tangent,
            width as int,
            height as int,
            row_origin as int,
        ),
{
    let mut positions: Vec<usize> = Vec::new();
    let in_reach: bool = -0x1_0000_0000_0000_0000_0000_0000_0000 <= row_origin && row_origin
        <= 0x1_0000_0000_0000_0000_0000_0000_0000;
    let mut x: usize = 0;
    while x < width
        invariant
            x <= width,
            width * height <= usize::MAX,
            in_reach == (-0x1_0000_0000_0000_0000_0000_0000_0000 <= row_origin
                <= 0x1_0000_0000_0000_0000_0000_0000_0000),
            positions.len() == line_columns(
                tangent,
                height as int,
                row_origin as int,
                x as int,
            ).len(),
            forall|k: int|
                0 <= k < positions.len() ==> #[trigger] positions[k] == line_row(
                    tangent,
                    line_columns(tangent, height as int, row_origin as int, x as int)[k],
                    row_origin as int,
                ) * width + line_columns(tangent, height as int, row_origin as int, x as int)[k],
        decreases width - x,
    {
        proof {
            lemma_rise_is_bounded(tangent, x as int);
        }
        if in_reach {
            let y: i128 = tangent.rise_at(x) + row_origin;
            if 0 < y && y < height as i128 {
                assert(y * width + x < width * height) by (nonlinear_arith)
                    requires
                        0 <= x < width,
                        0 <= y,
                        y + 1 <= height,
                ;
                let row: usize = y as usize;
                positions.push(row * width + x);
            }
        }
        x += 1;
    }
    positions
}

/// Reads the pixels that `source` holds at `positions` into a buffer of
/// their own.
pub fn gather(source: &Vec<Pixel>, positions: &Vec<usize>) -> (line: Vec<Pixel>)
    requires
        forall|k: int| 0 <= k < positions.len() ==> #[trigger] positions[k] < source.len(),
    ensures
        line@ == pixels_along(source@, as_positions(positions@)),
{
    let mut line: Vec<Pixel> = Vec::new();
    let mut k: usize = 0;
    while k < positions.len()
        invariant
            k <= positions.len(),
            line.len() == k,
            forall|j: int| 0 <= j < positions.len() ==> #[trigger] positions[j] < source.len(),
            forall|j: int| 0 <= j < k ==> #[trigger] line[j] == source[positions[j] as int],
        decreases positions.len() - k,
    {
        line.push(source[positions[k]]);
        k += 1;
    }
    line
}

/// `pixels` after the first `count` pixels of `line` were written to
/// their positions, one after the other.
pub open spec fn written(
    pixels: Seq<Pixel>,
    positions: Seq<int>,
    line: Seq<Pixel>,
    count: int,
) -> Seq<Pixel>
    decreases count,
{
    if count <= 0 {
        pixels
    } else {
        written(pixels, positions, line, count - 1).update(positions[count - 1], line[count - 1])
    }
}

/// Writing a line changes the written positions only, and at each of them
/// the last pixel written there stays.
pub proof fn lemma_written(pixels: Seq<Pixel>, positions: Seq<int>, line: Seq<Pixel>, count: int)
    requires
        0 <= count <= positions.len(),
        forall|k: int| 0 <= k < positions.len() ==> 0 <= #[trigger] positions[k] < pixels.len(),
    ensures
        written(pixels, positions, line, count).len() == pixels.len(),
        forall|k: int|
            0 <= k < count && (forall|j: int|
                k < j < count ==> #[trigger] positions[j] != positions[k])
                ==> written(pixels, positions, line, count)[#[trigger] positions[k]] == line[k],
        forall|p: int|
            0 <= p < pixels.len() && (forall|k: int|
                0 <= k < count ==> #[trigger] positions[k] != p)
                ==> #[trigger] written(pixels, positions, line, count)[p] == pixels[p],
    decreases count,
{
    if count > 0 {
        lemma_written(pixels, positions, line, count - 1);
    }
}

/// Writes the buffer `line` back into `pixels`: the pixel `line[k]` goes to
/// `positions[k]`, for one `k` after the other. Where a position occurs
/// more than once, the last pixel written to it stays.
pub fn merge_line(pixels: &mut Vec<Pixel>, positions: &Vec<usize>, line: &Vec<Pixel>)
    requires
        positions.len() == line.len(),
        forall|k: int| 0 <= k < positions.len() ==> #[trigger] positions[k] < old(pixels).len(),
    ensures
        final(pixels)@ == written(
            old(pixels)@,
            as_positions(positions@),
            line@,
            positions.len() as int,
        ),
        final(pixels).len() == old(pixels).len(),
{
    let mut i: usize = 0;
    while i < positions.len()
        invariant
            i <= positions.len(),
            positions.len() == line.len(),
            pixels.len() == old(pixels).len(),
            forall|k: int| 0 <= k < positions.len() ==> #[trigger] positions[k] < pixels.len(),
            pixels@ == written(old(pixels)@, as_positions(positions@), line@, i as int),
        decreases positions.len() - i,
    {
        pixels.set(positions[i], line[i]);
        i += 1;
    }
}

} // verus!
