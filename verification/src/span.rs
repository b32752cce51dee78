//! Spans: the maximal runs of selected pixels in a line, and their sorting.

use rayon::slice::ParallelSliceMut;
use vstd::prelude::*;
use vstd::relations::sorted_by;
use crate::pixel::Pixel;
use crate::pixel_characteristics::PixelCharacteristic;
use crate::settings::Threshold;

verus! {

/// A run of positions in a line, from `start` up to but not including `end`.
#[derive(Clone, Copy, Debug, PartialEq, Eq, Structural)]
pub struct Span {
    pub start: usize,
    pub end: usize,
}

/// The positions from `start` up to `end` are a span of `line`: a run of
/// selected pixels that is not empty and cannot be extended on either side.
pub open spec fn is_span(line: Seq<Pixel>, threshold: Threshold, start: int, end: int) -> bool {
    &&& 0 <= start < end <= line.len()
    &&& forall|i: int| start <= i < end ==> threshold.selects(#[trigger] line[i])
    &&& (start == 0 || !threshold.selects(line[start - 1]))
    &&& (end == line.len() || !threshold.selects(line[end]))
}

/// `spans` lists the spans of `line`, all of them, from left to right.
pub open spec fn is_partition(line: Seq<Pixel>, threshold: Threshold, spans: Seq<Span>) -> bool {
    &&& forall|k: int|
        0 <= k < spans.len() ==> is_span(
            line,
            threshold,
            (#[trigger] spans[k]).start as int,
            spans[k].end as int,
        )
    &&& forall|j: int, k: int|
        0 <= j < k < spans.len() ==> (#[trigger] spans[j]).end < (#[trigger] spans[k]).start
    &&& forall|i: int|
        0 <= i < line.len() && threshold.selects(#[trigger] line[i]) ==> exists|k: int|
            0 <= k < spans.len() && (#[trigger] spans[k]).start <= i < spans[k].end
}

/// `after` holds the pixels of `before` in ascending order.
pub open spec fn is_sorted_run(
    before: Seq<Pixel>,
    after: Seq<Pixel>,
    sort_by: PixelCharacteristic,
) -> bool {
    &&& after.to_multiset() == before.to_multiset()
    &&& sorted_by(after, sort_by.precedes_relation())
}

/// `after` is `before` with every span sorted: the pixels that the
/// threshold does not select are where they were, and each span holds its
/// own pixels in ascending order.
pub open spec fn is_span_sorted(
    before: Seq<Pixel>,
    after: Seq<Pixel>,
    threshold: Threshold,
    sort_by: PixelCharacteristic,
) -> bool {
    &&& after.len() == before.len()
    &&& forall|i: int|
        0 <= i < before.len() && !threshold.selects(#[trigger] before[i]) ==> after[i]
            == before[i]
    &&& forall|start: int, end: int| #[trigger]
        is_span(before, threshold, start, end) ==> is_sorted_run(
            before.subrange(start, end),
            after.subrange(start, end),
            sort_by,
        )
}

/// Two spans that share a position are the same span.
pub proof fn lemma_spans_do_not_overlap(
    line: Seq<Pixel>,
    threshold: Threshold,
    a_start: int,
    a_end: int,
    b_start: int,
    b_end: int,
    i: int,
)
    requires
        is_span(line, threshold, a_start, a_end),
        is_span(line, threshold, b_start, b_end),
        a_start <= i < a_end,
        b_start <= i < b_end,
    ensures
        a_start == b_start,
        a_end == b_end,
{
}

/// Cuts `line` into its spans.
pub fn partition_spans(line: &Vec<Pixel>, threshold: &Threshold) -> (spans: Vec<Span>)
    ensures
        is_partition(line@, *threshold, spans@),
{
    let mut spans: Vec<Span> = Vec::new();
    let mut current_span_start: Option<usize> = None;
    let mut pixel: usize = 0;
    while pixel < line.len()
        invariant
            pixel <= line.len(),
            forall|k: int|
                0 <= k < spans.len() ==> is_span(
                    line@,
                    *threshold,
                    (#[trigger] spans[k]).start as int,
                    spans[k].end as int,
                ),
            forall|j: int, k: int|
                0 <= j < k < spans.len() ==> (#[trigger] spans[j]).end < (
                #[trigger] spans[k]).start,
            match current_span_start {
                Some(start) => {
                    &&& start < pixel
                    &&& forall|i: int| start <= i < pixel ==> threshold.selects(#[trigger] line[i])
                    &&& (start == 0 || !threshold.selects(line[start - 1]))
                    &&& forall|k: int| 0 <= k < spans.len() ==> (#[trigger] spans[k]).end < start
                    &&& forall|i: int|
                        0 <= i < start && threshold.selects(#[trigger] line[i]) ==> exists|k: int|
                            0 <= k < spans.len() && (#[trigger] spans[k]).start <= i < spans[k].end
                },
                None => {
                    &&& (pixel == 0 || !threshold.selects(line[pixel - 1]))
                    &&& forall|k: int| 0 <= k < spans.len() ==> (#[trigger] spans[k]).end < pixel
                    &&& forall|i: int|
                        0 <= i < pixel && threshold.selects(#[trigger] line[i]) ==> exists|k: int|
                            0 <= k < spans.len() && (#[trigger] spans[k]).start <= i < spans[k].end
                },
            },
        decreases line.len() - pixel,
    {
        let selected = threshold.is_selected(&line[pixel]);
        if selected {
            if current_span_start.is_none() {
                current_span_start = Some(pixel);
            }
        } else {
            if let Some(start) = current_span_start {
                let ghost found = spans@;
                spans.push(Span { start, end: pixel });
                current_span_start = None;
                proof {
                    let last = found.len() as int;
                    assert forall|i: int|
                        0 <= i < pixel + 1 && threshold.selects(#[trigger] line[i]) implies exists|
                        k: int,
                    | 0 <= k < spans.len() && (#[trigger] spans[k]).start <= i < spans[k].end by {
                        if i < start {
                            let k = choose|k: int|
                                0 <= k < found.len() && (#[trigger] found[k]).start <= i
                                    < found[k].end;
                            assert(spans[k] == found[k]);
                        } else {
                            assert(spans[last].start <= i < spans[last].end);
                        }
                    }
                }
            }
        }
        pixel += 1;
    }
    if let Some(start) = current_span_start {
        let ghost found = spans@;
        spans.push(Span { start, end: pixel });
        proof {
            let last = found.len() as int;
            assert forall|i: int|
                0 <= i < line.len() && threshold.selects(#[trigger] line[i]) implies exists|k: int|
                0 <= k < spans.len() && (#[trigger] spans[k]).start <= i < spans[k].end by {
                if i < start {
                    let k = choose|k: int|
                        0 <= k < found.len() && (#[trigger] found[k]).start <= i < found[k].end;
                    assert(spans[k] == found[k]);
                } else {
                    assert(spans[last].start <= i < spans[last].end);
                }
            }
        }
    }
    spans
}

/// Sorts a run with rayon's `par_sort_unstable_by`, handing it `order` as
/// the comparator. Taken on trust from rayon: the call leaves in `run` the
/// pixels that were there, each as often as before, in an arrangement in
/// which no pixel stands before one that the comparator puts ahead of it.
#[verifier::external_body]
fn sort_run(run: &mut Vec<Pixel>, sort_by: PixelCharacteristic)
    ensures
        final(run)@.to_multiset() == old(run)@.to_multiset(),
        sorted_by(final(run)@, sort_by.precedes_relation()),
{
    run.par_sort_unstable_by(|a, b| sort_by.order(a, b));
}

/// Copies the pixels of `line` from `start` up to `end`.
pub(crate) fn copy_run(line: &Vec<Pixel>, start: usize, end: usize) -> (run: Vec<Pixel>)
    requires
        start <= end <= line.len(),
    ensures
        run@ == line@.subrange(start as int, end as int),
{
    let mut run: Vec<Pixel> = Vec::new();
    let mut i: usize = start;
    while i < end
        invariant
            start <= i <= end <= line.len(),
            run@ == line@.subrange(start as int, i as int),
        decreases end - i,
    {
        run.push(line[i]);
        i += 1;
    }
    run
}

/// Writes `run` into `line` from position `start` on.
pub(crate) fn write_run(line: &mut Vec<Pixel>, start: usize, run: &Vec<Pixel>)
    requires
        start + run.len() <= old(line).len(),
    ensures
        final(line).len() == old(line).len(),
        final(line)@.subrange(start as int, start + run.len()) == run@,
        forall|i: int|
            0 <= i < old(line).len() && !(start <= i < start + run.len()) ==> final(line)[i]
                == old(line)[i],
{
    let mut i: usize = 0;
    while i < run.len()
        invariant
            i <= run.len(),
            line.len() == old(line).len(),
            start + run.len() <= line.len(),
            line@.subrange(start as int, start + i) == run@.subrange(0, i as int),
            forall|j: int|
                0 <= j < line.len() && !(start <= j < start + i) ==> line[j] == old(line)[j],
        decreases run.len() - i,
    {
        line.set(start + i, run[i]);
        i += 1;
        assert(line@.subrange(start as int, start + i) =~= run@.subrange(0, i as int));
    }
}

/// Sorts every span of `line`: the pixels that `threshold` selects are put
/// in ascending order of `sort_by` within their span, and all others stay.
pub fn sort_spans(line: &mut Vec<Pixel>, threshold: &Threshold, sort_by: PixelCharacteristic)
    ensures
        is_span_sorted(old(line)@, final(line)@, *threshold, sort_by),
{
    let spans = partition_spans(line, threshold);
    let ghost before = line@;
    let mut k: usize = 0;
    while k < spans.len()
        invariant
            k <= spans.len(),
            before == old(line)@,
            is_partition(before, *threshold, spans@),
            line.len() == before.len(),
            forall|i: int|
                0 <= i < before.len() && !threshold.selects(#[trigger] before[i]) ==> line[i]
                    == before[i],
            forall|j: int|
                k <= j < spans.len() ==> line@.subrange(
                    (#[trigger] spans[j]).start as int,
                    spans[j].end as int,
                ) == before.subrange(spans[j].start as int, spans[j].end as int),
            forall|j: int|
                0 <= j < k ==> is_sorted_run(
                    before.subrange((#[trigger] spans[j]).start as int, spans[j].end as int),
                    line@.subrange(spans[j].start as int, spans[j].end as int),
                    sort_by,
                ),
        decreases spans.len() - k,
    {
        let span = spans[k];
        let ghost previous = line@;
        let mut run = copy_run(line, span.start, span.end);
        sort_run(&mut run, sort_by);
        proof {
            vstd::seq_lib::to_multiset_len(run@);
            vstd::seq_lib::to_multiset_len(previous.subrange(span.start as int, span.end as int));
        }
        write_run(line, span.start, &run);
        proof {
            assert forall|j: int| 0 <= j < spans.len() && j != k implies line@.subrange(
                (#[trigger] spans[j]).start as int,
                spans[j].end as int,
            ) == previous.subrange(spans[j].start as int, spans[j].end as int) by {
            }
        }
        k += 1;
    }
    proof {
        assert forall|start: int, end: int| #[trigger]
            is_span(before, *threshold, start, end) implies is_sorted_run(
            before.subrange(start, end),
            line@.subrange(start, end),
            sort_by,
        ) by {
            assert(threshold.selects(before[start]));
            let j = choose|j: int|
                0 <= j < spans.len() && (#[trigger] spans[j]).start <= start < spans[j].end;
            lemma_spans_do_not_overlap(
                before,
                *threshold,
                spans[j].start as int,
                spans[j].end as int,
                start,
                end,
                start,
            );
        }
    }
}

/// Where the span that holds the selected position `i` begins.
pub open spec fn span_start(line: Seq<Pixel>, threshold: Threshold, i: int) -> int
    decreases i,
{
    if i <= 0 || !threshold.selects(line[i - 1]) {
        i
    } else {
        span_start(line, threshold, i - 1)
    }
}

/// Where the span that holds the selected position `i` ends.
pub open spec fn span_end(line: Seq<Pixel>, threshold: Threshold, i: int) -> int
    decreases line.len() - i,
{
    if i + 1 >= line.len() || !threshold.selects(line[i + 1]) {
        i + 1
    } else {
        span_end(line, threshold, i + 1)
    }
}

/// Every selected position lies in a span.
pub proof fn lemma_selected_position_has_span(line: Seq<Pixel>, threshold: Threshold, i: int)
    requires
        0 <= i < line.len(),
        threshold.selects(line[i]),
    ensures
        is_span(line, threshold, span_start(line, threshold, i), span_end(line, threshold, i)),
        span_start(line, threshold, i) <= i < span_end(line, threshold, i),
{
    lemma_span_start(line, threshold, i);
    lemma_span_end(line, threshold, i);
}

proof fn lemma_span_start(line: Seq<Pixel>, threshold: Threshold, i: int)
    requires
        0 <= i < line.len(),
        threshold.selects(line[i]),
    ensures
        0 <= span_start(line, threshold, i) <= i,
        forall|j: int|
            span_start(line, threshold, i) <= j <= i ==> threshold.selects(#[trigger] line[j]),
        span_start(line, threshold, i) == 0 || !threshold.selects(
            line[span_start(line, threshold, i) - 1],
        ),
    decreases i,
{
    if i > 0 && threshold.selects(line[i - 1]) {
        lemma_span_start(line, threshold, i - 1);
    }
}

proof fn lemma_span_end(line: Seq<Pixel>, threshold: Threshold, i: int)
    requires
        0 <= i < line.len(),
        threshold.selects(line[i]),
    ensures
        i < span_end(line, threshold, i) <= line.len(),
        forall|j: int|
            i <= j < span_end(line, threshold, i) ==> threshold.selects(#[trigger] line[j]),
        span_end(line, threshold, i) == line.len() || !threshold.selects(
            line[span_end(line, threshold, i)],
        ),
    decreases line.len() - i,
{
    if i + 1 < line.len() && threshold.selects(line[i + 1]) {
        lemma_span_end(line, threshold, i + 1);
    }
}

/// A threshold that selects no pixel of a line leaves the line as it was.
pub proof fn lemma_nothing_selected_nothing_changed(
    before: Seq<Pixel>,
    after: Seq<Pixel>,
    threshold: Threshold,
    sort_by: PixelCharacteristic,
)
    requires
        is_span_sorted(before, after, threshold, sort_by),
        forall|i: int| 0 <= i < before.len() ==> !threshold.selects(#[trigger] before[i]),
    ensures
        after == before,
{
}

/// After sorting, every span holds exactly the pixels it held before, each
/// as often as before.
pub proof fn lemma_span_keeps_its_pixels(
    before: Seq<Pixel>,
    after: Seq<Pixel>,
    threshold: Threshold,
    sort_by: PixelCharacteristic,
    start: int,
    end: int,
)
    requires
        is_span_sorted(before, after, threshold, sort_by),
        is_span(before, threshold, start, end),
    ensures
        after.subrange(start, end).to_multiset() == before.subrange(start, end).to_multiset(),
{
}

/// After sorting, the value of the sorting characteristic never falls from
/// one pixel of a span to the next.
pub proof fn lemma_span_is_ascending(
    before: Seq<Pixel>,
    after: Seq<Pixel>,
    threshold: Threshold,
    sort_by: PixelCharacteristic,
    start: int,
    end: int,
    i: int,
)
    requires
        is_span_sorted(before, after, threshold, sort_by),
        is_span(before, threshold, start, end),
        start <= i,
        i + 1 < end,
    ensures
        sort_by.value(after[i]) <= sort_by.value(after[i + 1]),
{
    let run = after.subrange(start, end);
    assert(sort_by.precedes_relation()(run[i - start], run[i + 1 - start]));
    sort_by.lemma_precedes_orders_values(after[i], after[i + 1]);
}

/// Sorting leaves every pixel outside the spans where it was.
pub proof fn lemma_outside_spans_unchanged(
    before: Seq<Pixel>,
    after: Seq<Pixel>,
    threshold: Threshold,
    sort_by: PixelCharacteristic,
    i: int,
)
    requires
        is_span_sorted(before, after, threshold, sort_by),
        0 <= i < before.len(),
        forall|start: int, end: int|
            is_span(before, threshold, start, end) ==> !(start <= i < end),
    ensures
        after[i] == before[i],
{
    if threshold.selects(before[i]) {
        lemma_selected_position_has_span(before, threshold, i);
    }
}

/// A run has one sorted arrangement only.
pub proof fn lemma_sorted_run_is_unique(
    before: Seq<Pixel>,
    first: Seq<Pixel>,
    second: Seq<Pixel>,
    sort_by: PixelCharacteristic,
)
    requires
        is_sorted_run(before, first, sort_by),
        is_sorted_run(before, second, sort_by),
    ensures
        first == second,
{
    sort_by.lemma_precedes_is_total_order();
    vstd::seq_lib::lemma_sorted_unique(first, second, sort_by.precedes_relation());
}

/// The outcome of sorting a line is determined by the line and the
/// settings: two results for the same line are the same, pixel for pixel.
pub proof fn lemma_span_sorted_is_unique(
    before: Seq<Pixel>,
    first: Seq<Pixel>,
    second: Seq<Pixel>,
    threshold: Threshold,
    sort_by: PixelCharacteristic,
)
    requires
        is_span_sorted(before, first, threshold, sort_by),
        is_span_sorted(before, second, threshold, sort_by),
    ensures
        first == second,
{
    assert forall|i: int| 0 <= i < before.len() implies first[i] == second[i] by {
        if threshold.selects(before[i]) {
            lemma_selected_position_has_span(before, threshold, i);
            let start = span_start(before, threshold, i);
            let end = span_end(before, threshold, i);
            lemma_sorted_run_is_unique(
                before.subrange(start, end),
                first.subrange(start, end),
                second.subrange(start, end),
                sort_by,
            );
            assert(second[i] == second.subrange(start, end)[i - start]);
        }
    }
}

/// A shorter line that ends where no span is cut has the spans of the
/// longer line that lie in it.
proof fn lemma_prefix_is_span_sorted(
    before: Seq<Pixel>,
    after: Seq<Pixel>,
    threshold: Threshold,
    sort_by: PixelCharacteristic,
    cut: int,
)
    requires
        is_span_sorted(before, after, threshold, sort_by),
        0 <= cut <= before.len(),
        cut == 0 || cut == before.len() || !threshold.selects(before[cut - 1])
            || !threshold.selects(before[cut]),
    ensures
        is_span_sorted(before.subrange(0, cut), after.subrange(0, cut), threshold, sort_by),
{
    let short_before = before.subrange(0, cut);
    let short_after = after.subrange(0, cut);
    assert forall|start: int, end: int| #[trigger]
        is_span(short_before, threshold, start, end) implies is_sorted_run(
        short_before.subrange(start, end),
        short_after.subrange(start, end),
        sort_by,
    ) by {
        assert forall|i: int| start <= i < end implies threshold.selects(#[trigger] before[i]) by {
            assert(threshold.selects(short_before[i]));
        }
        assert(is_span(before, threshold, start, end));
        assert(short_before.subrange(start, end) =~= before.subrange(start, end));
        assert(short_after.subrange(start, end) =~= after.subrange(start, end));
    }
}

/// After sorting, a line holds exactly the pixels it held before, each as
/// often as before.
pub proof fn lemma_line_keeps_its_pixels(
    before: Seq<Pixel>,
    after: Seq<Pixel>,
    threshold: Threshold,
    sort_by: PixelCharacteristic,
)
    requires
        is_span_sorted(before, after, threshold, sort_by),
    ensures
        after.to_multiset() == before.to_multiset(),
    decreases before.len(),
{
    let len = before.len() as int;
    if len == 0 {
        assert(after =~= before);
    } else {
        let cut = if threshold.selects(before[len - 1]) {
            lemma_selected_position_has_span(before, threshold, len - 1);
            span_start(before, threshold, len - 1)
        } else {
            len - 1
        };
        lemma_prefix_is_span_sorted(before, after, threshold, sort_by, cut);
        lemma_line_keeps_its_pixels(
            before.subrange(0, cut),
            after.subrange(0, cut),
            threshold,
            sort_by,
        );
        if threshold.selects(before[len - 1]) {
        } else {
            assert(after.subrange(cut, len) =~= before.subrange(cut, len));
        }
        vstd::seq_lib::lemma_multiset_commutative(
            before.subrange(0, cut),
            before.subrange(cut, len),
        );
        vstd::seq_lib::lemma_multiset_commutative(after.subrange(0, cut), after.subrange(cut, len));
        assert(before =~= before.subrange(0, cut) + before.subrange(cut, len));
        assert(after =~= after.subrange(0, cut) + after.subrange(cut, len));
    }
}

} // verus!
