//! What a pass with a span sort leaves alone.

use vstd::prelude::*;
use crate::grid::{lemma_row_bounds, ImageView};
use crate::lines::{
    lemma_line_columns,
    lemma_line_positions,
    line_columns,
    line_positions,
    pixels_along,
};
use crate::passes::{
    is_row_sorted,
    is_slant_sorted,
    lemma_lines_determine_image,
    lemma_rows_determine_image,
};
use crate::slant::{end_origin, first_origin, lemma_every_pixel_is_visited, rise, Tangent};
use crate::sort_algos::SpanSortMethod;
use crate::span::lemma_nothing_selected_nothing_changed;

verus! {

/// A pass over the rows moves selected pixels only: a pixel that the
/// threshold does not select is in the same place afterwards.
pub proof fn lemma_row_pass_keeps_unselected_pixel(
    before: ImageView,
    after: ImageView,
    method: SpanSortMethod,
    x: int,
    y: int,
)
    requires
        before.wf(),
        is_row_sorted(before, after, method),
        0 <= x < before.width,
        0 <= y < before.height,
        !method.config.threshold.selects(before.pixel_at(x, y)),
    ensures
        after.pixel_at(x, y) == before.pixel_at(x, y),
{
    lemma_row_bounds(before.width as int, before.height as int, y);
    assert(before.row(y)[x] == before.pixel_at(x, y));
}

/// A pass over slanted lines moves selected pixels only: a pixel that the
/// threshold does not select is in the same place afterwards.
pub proof fn lemma_slant_pass_keeps_unselected_pixel(
    before: ImageView,
    after: ImageView,
    method: SpanSortMethod,
    tangent: Tangent,
    x: int,
    y: int,
)
    requires
        before.wf(),
        is_slant_sorted(before, after, method, tangent),
        0 <= x < before.width,
        0 <= y < before.height,
        !method.config.threshold.selects(before.pixel_at(x, y)),
    ensures
        after.pixel_at(x, y) == before.pixel_at(x, y),
{
    let width = before.width as int;
    let height = before.height as int;
    lemma_row_bounds(width, height, y);
    if y > 0 {
        let row_origin = y - rise(tangent, x);
        lemma_every_pixel_is_visited(tangent, width, height, x, y);
        lemma_line_columns(tangent, height, row_origin, width);
        let columns = line_columns(tangent, height, row_origin, width);
        let k = choose|k: int| 0 <= k < columns.len() && #[trigger] columns[k] == x;
        let line = line_positions(tangent, width, height, row_origin);
        assert(pixels_along(before.pixels, line)[k] == before.pixel_at(x, y));
    } else {
        assert(y * width == 0) by (nonlinear_arith)
            requires
                y == 0,
        ;
    }
}

/// A pass over the rows with a threshold that selects no pixel of the image
/// leaves the image as it was.
pub proof fn lemma_row_pass_without_selection(
    before: ImageView,
    after: ImageView,
    method: SpanSortMethod,
)
    requires
        before.wf(),
        is_row_sorted(before, after, method),
        forall|p: int|
            0 <= p < before.pixels.len() ==> !method.config.threshold.selects(
                #[trigger] before.pixels[p],
            ),
    ensures
        after == before,
{
    assert forall|y: int| 0 <= y < before.height implies #[trigger] before.row(y) == after.row(
        y,
    ) by {
        lemma_row_bounds(before.width as int, before.height as int, y);
        lemma_nothing_selected_nothing_changed(
            before.row(y),
            after.row(y),
            method.config.threshold,
            method.config.sorting_method,
        );
    }
    lemma_rows_determine_image(before, after);
}

/// A pass over slanted lines with a threshold that selects no pixel of the
/// image leaves the image as it was.
pub proof fn lemma_slant_pass_without_selection(
    before: ImageView,
    after: ImageView,
    method: SpanSortMethod,
    tangent: Tangent,
)
    requires
        before.wf(),
        is_slant_sorted(before, after, method, tangent),
        forall|p: int|
            0 <= p < before.pixels.len() ==> !method.config.threshold.selects(
                #[trigger] before.pixels[p],
            ),
    ensures
        after == before,
{
    let width = before.width as int;
    let height = before.height as int;
    assert forall|row_origin: int|
        first_origin(tangent, width) <= row_origin < end_origin(
            tangent,
            width,
            height,
        ) implies pixels_along(
        before.pixels,
        #[trigger] line_positions(tangent, width, height, row_origin),
    ) == pixels_along(after.pixels, line_positions(tangent, width, height, row_origin)) by {
        let line = line_positions(tangent, width, height, row_origin);
        lemma_line_positions(tangent, width, height, row_origin);
        lemma_nothing_selected_nothing_changed(
            pixels_along(before.pixels, line),
            pixels_along(after.pixels, line),
            method.config.threshold,
            method.config.sorting_method,
        );
    }
    lemma_lines_determine_image(before, after, tangent);
}

} // verus!
