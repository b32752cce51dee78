//! One pass over an image: every line of the image is sorted once, from
//! the pixels that the image held when the pass began.

use vstd::prelude::*;
use crate::grid::{lemma_position_is_unique, lemma_row_bounds, Image, ImageView};
use crate::lines::{
    as_positions,
    gather,
    lemma_line_columns,
    lemma_line_positions,
    line_columns,
    line_positions,
    lemma_written,
    merge_line,
    pixels_along,
    positions_of_line,
    written,
};
use crate::pixel::Pixel;
use crate::slant::{end_origin, first_origin, line_row, rise, visits, Tangent};
use crate::sort_algos::SortMethod;
use crate::span::{copy_run, write_run};

verus! {

/// `after` is `before` with every row sorted by `sorter`.
pub open spec fn is_row_sorted<S: SortMethod>(
    before: ImageView,
    after: ImageView,
    sorter: S,
) -> bool {
    &&& after.width == before.width
    &&& after.height == before.height
    &&& after.pixels.len() == before.pixels.len()
    &&& forall|y: int|
        0 <= y < before.height ==> sorter.sorts(#[trigger] before.row(y), after.row(y))
}

/// `after` is `before` with every slanted line of tangent `tangent` sorted
/// by `sorter`: along each line of the pass `after` holds what sorting
/// makes of the pixels that `before` holds along it, and the top row, which
/// no line visits, is as it was.
pub open spec fn is_slant_sorted<S: SortMethod>(
    before: ImageView,
    after: ImageView,
    sorter: S,
    tangent: Tangent,
) -> bool {
    &&& after.width == before.width
    &&& after.height == before.height
    &&& after.pixels.len() == before.pixels.len()
    &&& forall|row_origin: int|
        first_origin(tangent, before.width as int) <= row_origin < end_origin(
            tangent,
            before.width as int,
            before.height as int,
        ) ==> sorter.sorts(
            pixels_along(
                before.pixels,
                #[trigger] line_positions(
                    tangent,
                    before.width as int,
                    before.height as int,
                    row_origin,
                ),
            ),
            pixels_along(
                after.pixels,
                line_positions(tangent, before.width as int, before.height as int, row_origin),
            ),
        )
    &&& forall|x: int|
        0 <= x < before.width && x < before.pixels.len() ==> #[trigger] after.pixels[x]
            == before.pixels[x]
}

/// Sorts every row of `image` with `sorter`.
pub fn sort_rows<S: SortMethod>(image: &mut Image, sorter: &S)
    requires
        old(image).wf(),
    ensures
        final(image).wf(),
        is_row_sorted(old(image)@, final(image)@, *sorter),
{
    let width: usize = image.width;
    let height: usize = image.height;
    let ghost before = image@;
    let mut y: usize = 0;
    while y < height
        invariant
            y <= height,
            before == old(image)@,
            before.wf(),
            image.width == width == before.width,
            image.height == height == before.height,
            image.pixels.len() == before.pixels.len(),
            forall|done: int|
                0 <= done < y ==> sorter.sorts(#[trigger] before.row(done), image@.row(done)),
            forall|p: int|
                y * width <= p < image.pixels.len() ==> image.pixels[p] == before.pixels[p],
        decreases height - y,
    {
        proof {
            lemma_row_bounds(width as int, height as int, y as int);
        }
        let start: usize = y * width;
        let ghost previous = image@;
        let mut row = copy_run(&image.pixels, start, start + width);
        assert(row@ =~= before.row(y as int));
        sorter.sort(&mut row);
        proof {
            sorter.lemma_sorts(before.row(y as int), row@, row@);
        }
        write_run(&mut image.pixels, start, &row);
        proof {
            assert forall|done: int| 0 <= done < y implies sorter.sorts(
                #[trigger] before.row(done),
                image@.row(done),
            ) by {
                lemma_row_bounds(width as int, y as int, done);
                assert(image@.row(done) =~= previous.row(done));
            }
            assert((y + 1) * width == y * width + width) by (nonlinear_arith);
        }
        y += 1;
    }
}

/// The pixel at column `x` of row `y` waits for its line while the lines
/// with row origins below `next_origin` are being merged: it lies in the
/// top row, or the one line through it has a later row origin.
pub open spec fn is_waiting(tangent: Tangent, x: int, y: int, next_origin: int) -> bool {
    y == 0 || y - rise(tangent, x) >= next_origin
}

/// A position of the line with row origin `row_origin` belongs to a pixel
/// below the top row whose one line is this line.
proof fn lemma_position_is_on_its_line(
    tangent: Tangent,
    width: int,
    height: int,
    row_origin: int,
    k: int,
    x: int,
    y: int,
)
    requires
        0 <= x < width,
        0 <= height,
        0 <= k < line_positions(tangent, width, height, row_origin).len(),
        line_positions(tangent, width, height, row_origin)[k] == y * width + x,
    ensures
        0 < y < height,
        y - rise(tangent, x) == row_origin,
{
    lemma_line_columns(tangent, height, row_origin, width);
    let column = line_columns(tangent, height, row_origin, width)[k];
    lemma_position_is_unique(width, column, line_row(tangent, column, row_origin), x, y);
}

/// The private buffer of one slanted line: where the pixels of the line
/// lie in the image, and the pixels that belong there after sorting.
#[derive(Debug)]
pub struct LineBuffer {
    pub positions: Vec<usize>,
    pub pixels: Vec<Pixel>,
}

/// `buffer` is the buffer of the line with row origin `row_origin`: it
/// holds the positions of that line and what sorting makes of the pixels
/// that `source` holds along it.
pub open spec fn is_line_buffer<S: SortMethod>(
    buffer: LineBuffer,
    source: ImageView,
    sorter: S,
    tangent: Tangent,
    row_origin: int,
) -> bool {
    let line = line_positions(tangent, source.width as int, source.height as int, row_origin);
    &&& as_positions(buffer.positions@) == line
    &&& buffer.pixels.len() == buffer.positions.len()
    &&& sorter.sorts(pixels_along(source.pixels, line), buffer.pixels@)
}

/// `pixels` after the first `count` of `buffers` were merged into it, one
/// after the other, each by writing its pixels to their positions.
pub open spec fn merged(pixels: Seq<Pixel>, buffers: Seq<LineBuffer>, count: int) -> Seq<Pixel>
    decreases count,
{
    if count <= 0 {
        pixels
    } else {
        written(
            merged(pixels, buffers, count - 1),
            as_positions(buffers[count - 1].positions@),
            buffers[count - 1].pixels@,
            buffers[count - 1].positions.len() as int,
        )
    }
}

/// `current` is `before` with the lines merged whose row origins lie below
/// `next_origin`: along each of them it holds the sorted pixels, and every
/// pixel that waits for its line is as it was.
pub open spec fn is_merged_up_to<S: SortMethod>(
    before: ImageView,
    current: Seq<Pixel>,
    sorter: S,
    tangent: Tangent,
    next_origin: int,
) -> bool {
    &&& current.len() == before.pixels.len()
    &&& forall|done: int|
        first_origin(tangent, before.width as int) <= done < next_origin ==> sorter.sorts(
            pixels_along(
                before.pixels,
                #[trigger] line_positions(
                    tangent,
                    before.width as int,
                    before.height as int,
                    done,
                ),
            ),
            pixels_along(
                current,
                line_positions(tangent, before.width as int, before.height as int, done),
            ),
        )
    &&& forall|x: int, y: int|
        0 <= x < before.width && 0 <= y < before.height && #[trigger] is_waiting(
            tangent,
            x,
            y,
            next_origin,
        ) ==> current[y * before.width + x] == before.pixels[y * before.width + x]
}

/// Merging the buffer of the next line keeps what was merged before it:
/// no line crosses another, so a buffer overwrites nothing but pixels that
/// still waited for their line.
pub proof fn lemma_merge_next_line<S: SortMethod>(
    before: ImageView,
    current: Seq<Pixel>,
    buffer: LineBuffer,
    sorter: S,
    tangent: Tangent,
    row_origin: int,
)
    requires
        before.wf(),
        is_merged_up_to(before, current, sorter, tangent, row_origin),
        is_line_buffer(buffer, before, sorter, tangent, row_origin),
    ensures
        is_merged_up_to(
            before,
            written(
                current,
                as_positions(buffer.positions@),
                buffer.pixels@,
                buffer.positions.len() as int,
            ),
            sorter,
            tangent,
            row_origin + 1,
        ),
{
    let width = before.width as int;
    let height = before.height as int;
    let here = line_positions(tangent, width, height, row_origin);
    let next = written(current, here, buffer.pixels@, buffer.positions.len() as int);
    lemma_line_positions(tangent, width, height, row_origin);
    lemma_written(current, here, buffer.pixels@, here.len() as int);
    assert(pixels_along(next, here) =~= buffer.pixels@);
    assert forall|done: int|
        first_origin(tangent, width) <= done < row_origin + 1 implies sorter.sorts(
        pixels_along(before.pixels, #[trigger] line_positions(tangent, width, height, done)),
        pixels_along(next, line_positions(tangent, width, height, done)),
    ) by {
        if done < row_origin {
            let there = line_positions(tangent, width, height, done);
            lemma_line_positions(tangent, width, height, done);
            lemma_line_columns(tangent, height, done, width);
            assert forall|j: int| 0 <= j < there.len() implies next[there[j]]
                == current[there[j]] by {
                let x = line_columns(tangent, height, done, width)[j];
                let y = line_row(tangent, x, done);
                assert forall|k: int| 0 <= k < here.len() implies #[trigger] here[k]
                    != there[j] by {
                    if here[k] == there[j] {
                        lemma_position_is_on_its_line(tangent, width, height, row_origin, k, x, y);
                    }
                }
            }
            assert(pixels_along(next, there) =~= pixels_along(current, there));
        }
    }
    assert forall|x: int, y: int|
        0 <= x < width && 0 <= y < height && #[trigger] is_waiting(
            tangent,
            x,
            y,
            row_origin + 1,
        ) implies next[y * width + x] == before.pixels[y * width + x] by {
        lemma_row_bounds(width, height, y);
        assert(is_waiting(tangent, x, y, row_origin));
        assert forall|k: int| 0 <= k < here.len() implies #[trigger] here[k] != y * width + x by {
            if here[k] == y * width + x {
                lemma_position_is_on_its_line(tangent, width, height, row_origin, k, x, y);
            }
        }
    }
}

/// Merging the buffers of the first `count` lines of a pass, in the order
/// of their row origins, gives the image with exactly those lines sorted.
pub proof fn lemma_merged_lines<S: SortMethod>(
    before: ImageView,
    buffers: Seq<LineBuffer>,
    sorter: S,
    tangent: Tangent,
    count: int,
)
    requires
        before.wf(),
        0 <= count <= buffers.len(),
        forall|i: int|
            0 <= i < count ==> is_line_buffer(
                #[trigger] buffers[i],
                before,
                sorter,
                tangent,
                first_origin(tangent, before.width as int) + i,
            ),
    ensures
        is_merged_up_to(
            before,
            merged(before.pixels, buffers, count),
            sorter,
            tangent,
            first_origin(tangent, before.width as int) + count,
        ),
    decreases count,
{
    if count > 0 {
        lemma_merged_lines(before, buffers, sorter, tangent, count - 1);
        lemma_merge_next_line(
            before,
            merged(before.pixels, buffers, count - 1),
            buffers[count - 1],
            sorter,
            tangent,
            first_origin(tangent, before.width as int) + count - 1,
        );
    }
}

/// The buffers of all lines of a pass, merged in the order of their row
/// origins, give the image of the pass.
pub proof fn lemma_merged_pass_is_sorted<S: SortMethod>(
    before: ImageView,
    buffers: Seq<LineBuffer>,
    sorter: S,
    tangent: Tangent,
)
    requires
        before.wf(),
        buffers.len() == end_origin(tangent, before.width as int, before.height as int)
            - first_origin(tangent, before.width as int),
        forall|i: int|
            0 <= i < buffers.len() ==> is_line_buffer(
                #[trigger] buffers[i],
                before,
                sorter,
                tangent,
                first_origin(tangent, before.width as int) + i,
            ),
    ensures
        is_slant_sorted(
            before,
            ImageView {
                width: before.width,
                height: before.height,
                pixels: merged(before.pixels, buffers, buffers.len() as int),
            },
            sorter,
            tangent,
        ),
{
    lemma_merged_lines(before, buffers, sorter, tangent, buffers.len() as int);
    let after = merged(before.pixels, buffers, buffers.len() as int);
    let end = end_origin(tangent, before.width as int, before.height as int);
    assert forall|x: int|
        0 <= x < before.width && x < before.pixels.len() implies #[trigger] after[x]
        == before.pixels[x] by {
        if before.height > 0 {
            assert(is_waiting(tangent, x, 0, end));
        } else {
            assert(before.width * before.height == 0) by (nonlinear_arith)
                requires
                    before.height == 0,
            ;
        }
    }
}

/// Sorts one slanted line of `source` into a buffer of its own and leaves
/// `source` alone.
pub fn sort_line<S: SortMethod>(
    source: &Image,
    sorter: &S,
    tangent: Tangent,
    row_origin: i128,
) -> (buffer: LineBuffer)
    requires
        source.wf(),
    ensures
        is_line_buffer(buffer, source@, *sorter, tangent, row_origin as int),
{
    assert(source.pixels.len() == source.width * source.height);
    let positions = positions_of_line(tangent, source.width, source.height, row_origin);
    proof {
        lemma_line_positions(
            tangent,
            source.width as int,
            source.height as int,
            row_origin as int,
        );
        assert forall|k: int| 0 <= k < positions.len() implies #[trigger] positions[k]
            < source.pixels.len() by {
            assert(as_positions(positions@)[k] == positions[k]);
        }
    }
    let mut pixels = gather(&source.pixels, &positions);
    let ghost gathered = pixels@;
    sorter.sort(&mut pixels);
    proof {
        sorter.lemma_sorts(gathered, pixels@, pixels@);
    }
    LineBuffer { positions, pixels }
}

/// Merges line buffers into `image`, one after the other in the order in
/// which `buffers` holds them. Where two buffers hold the same position,
/// the later one wins.
pub fn merge_lines(image: &mut Image, buffers: &Vec<LineBuffer>)
    requires
        forall|i: int|
            0 <= i < buffers.len() ==> (#[trigger] buffers[i]).positions.len()
                == buffers[i].pixels.len(),
        forall|i: int, k: int|
            0 <= i < buffers.len() && 0 <= k < buffers[i].positions.len()
                ==> #[trigger] buffers[i].positions[k] < old(image).pixels.len(),
    ensures
        final(image).width == old(image).width,
        final(image).height == old(image).height,
        final(image).pixels@ == merged(old(image).pixels@, buffers@, buffers.len() as int),
        final(image).pixels.len() == old(image).pixels.len(),
{
    let mut i: usize = 0;
    while i < buffers.len()
        invariant
            i <= buffers.len(),
            image.width == old(image).width,
            image.height == old(image).height,
            image.pixels.len() == old(image).pixels.len(),
            image.pixels@ == merged(old(image).pixels@, buffers@, i as int),
            forall|j: int|
                0 <= j < buffers.len() ==> (#[trigger] buffers[j]).positions.len()
                    == buffers[j].pixels.len(),
            forall|j: int, k: int|
                0 <= j < buffers.len() && 0 <= k < buffers[j].positions.len()
                    ==> #[trigger] buffers[j].positions[k] < image.pixels.len(),
        decreases buffers.len() - i,
    {
        merge_line(&mut image.pixels, &buffers[i].positions, &buffers[i].pixels);
        i += 1;
    }
}

/// Sorts every slanted line of tangent `tangent` with `sorter`. Each line
/// is sorted from the pixels that `image` holds when the pass begins, into
/// a buffer of its own; when all lines are sorted, the buffers are merged
/// into `image` in the order of their row origins.
pub fn sort_slanted<S: SortMethod>(image: &mut Image, sorter: &S, tangent: Tangent)
    requires
        old(image).wf(),
    ensures
        final(image).wf(),
        is_slant_sorted(old(image)@, final(image)@, *sorter, tangent),
{
    let (first, end) = tangent.origin_range(image.width, image.height);
    let mut buffers: Vec<LineBuffer> = Vec::new();
    let mut row_origin: i128 = first;
    while row_origin < end
        invariant
            first <= row_origin <= end,
            first == first_origin(tangent, image.width as int),
            end == end_origin(tangent, image.width as int, image.height as int),
            image.wf(),
            *image == *old(image),
            buffers.len() == row_origin - first,
            forall|i: int|
                0 <= i < buffers.len() ==> is_line_buffer(
                    #[trigger] buffers[i],
                    image@,
                    *sorter,
                    tangent,
                    first + i,
                ),
        decreases end - row_origin,
    {
        let buffer = sort_line(image, sorter, tangent, row_origin);
        buffers.push(buffer);
        row_origin += 1;
    }
    proof {
        assert forall|i: int, k: int|
            0 <= i < buffers.len() && 0 <= k < buffers[i].positions.len()
                implies #[trigger] buffers[i].positions[k] < image.pixels.len() by {
            lemma_line_positions(tangent, image.width as int, image.height as int, first + i);
            assert(as_positions(buffers[i].positions@)[k] == buffers[i].positions[k]);
        }
        lemma_merged_pass_is_sorted(image@, buffers@, *sorter, tangent);
    }
    merge_lines(image, &buffers);
}

/// Two images of the same size whose rows agree are the same, pixel for
/// pixel.
pub proof fn lemma_rows_determine_image(first: ImageView, second: ImageView)
    requires
        first.wf(),
        second.wf(),
        first.width == second.width,
        first.height == second.height,
        forall|y: int| 0 <= y < first.height ==> #[trigger] first.row(y) == second.row(y),
    ensures
        first.pixels == second.pixels,
{
    let width = first.width as int;
    assert forall|p: int| 0 <= p < first.pixels.len() implies first.pixels[p]
        == second.pixels[p] by {
        let y = p / width;
        let x = p % width;
        vstd::arithmetic::div_mod::lemma_fundamental_div_mod(p, width);
        assert(0 <= y < first.height) by (nonlinear_arith)
            requires
                0 <= p < width * first.height,
                p == y * width + x,
                0 <= x < width,
        ;
        lemma_row_bounds(width, first.height as int, y);
        assert(first.pixels[p] == first.row(y)[x]);
    }
}

/// Two images of the same size that agree in the top row and along every
/// slanted line of a pass are the same, pixel for pixel.
pub proof fn lemma_lines_determine_image(first: ImageView, second: ImageView, tangent: Tangent)
    requires
        first.wf(),
        second.wf(),
        first.width == second.width,
        first.height == second.height,
        forall|x: int|
            0 <= x < first.width && x < first.pixels.len() ==> #[trigger] first.pixels[x]
                == second.pixels[x],
        forall|row_origin: int|
            first_origin(tangent, first.width as int) <= row_origin < end_origin(
                tangent,
                first.width as int,
                first.height as int,
            ) ==> pixels_along(
                first.pixels,
                #[trigger] line_positions(
                    tangent,
                    first.width as int,
                    first.height as int,
                    row_origin,
                ),
            ) == pixels_along(
                second.pixels,
                line_positions(tangent, first.width as int, first.height as int, row_origin),
            ),
    ensures
        first.pixels == second.pixels,
{
    let width = first.width as int;
    let height = first.height as int;
    assert forall|p: int| 0 <= p < first.pixels.len() implies first.pixels[p]
        == second.pixels[p] by {
        let y = p / width;
        let x = p % width;
        vstd::arithmetic::div_mod::lemma_fundamental_div_mod(p, width);
        assert(0 <= y < height) by (nonlinear_arith)
            requires
                0 <= p < width * height,
                p == y * width + x,
                0 <= x < width,
        ;
        if y > 0 {
            let row_origin = y - rise(tangent, x);
            crate::slant::lemma_every_pixel_is_visited(tangent, width, height, x, y);
            lemma_line_columns(tangent, height, row_origin, width);
            let columns = line_columns(tangent, height, row_origin, width);
            let k = choose|k: int| 0 <= k < columns.len() && #[trigger] columns[k] == x;
            let line = line_positions(tangent, width, height, row_origin);
            assert(pixels_along(second.pixels, line)[k] == second.pixels[p]);
        } else {
            assert(y * width == 0) by (nonlinear_arith)
                requires
                    y == 0,
            ;
        }
    }
}

/// A pass over the rows has one outcome only: the image and the sorter
/// determine every pixel of the result.
pub proof fn lemma_row_sorted_is_unique<S: SortMethod>(
    before: ImageView,
    first: ImageView,
    second: ImageView,
    sorter: S,
)
    requires
        before.wf(),
        is_row_sorted(before, first, sorter),
        is_row_sorted(before, second, sorter),
    ensures
        first == second,
{
    assert forall|y: int| 0 <= y < first.height implies #[trigger] first.row(y) == second.row(
        y,
    ) by {
        sorter.lemma_sorts(before.row(y), first.row(y), second.row(y));
    }
    lemma_rows_determine_image(first, second);
}

/// A pass over slanted lines has one outcome only: the image, the sorter
/// and the tangent determine every pixel of the result.
pub proof fn lemma_slant_sorted_is_unique<S: SortMethod>(
    before: ImageView,
    first: ImageView,
    second: ImageView,
    sorter: S,
    tangent: Tangent,
)
    requires
        before.wf(),
        is_slant_sorted(before, first, sorter, tangent),
        is_slant_sorted(before, second, sorter, tangent),
    ensures
        first == second,
{
    assert forall|row_origin: int|
        first_origin(tangent, first.width as int) <= row_origin < end_origin(
            tangent,
            first.width as int,
            first.height as int,
        ) implies pixels_along(
        first.pixels,
        #[trigger] line_positions(tangent, first.width as int, first.height as int, row_origin),
    ) == pixels_along(
        second.pixels,
        line_positions(tangent, first.width as int, first.height as int, row_origin),
    ) by {
        let line = line_positions(tangent, first.width as int, first.height as int, row_origin);
        sorter.lemma_sorts(
            pixels_along(before.pixels, line),
            pixels_along(first.pixels, line),
            pixels_along(second.pixels, line),
        );
    }
    lemma_lines_determine_image(first, second, tangent);
}

} // verus!
