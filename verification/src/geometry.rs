//! Placing the runs of a frame as rectangles.

use vstd::prelude::*;
use crate::flags::DecorationKind;
use crate::cell::DecoratedCell;
use crate::lines::{aggregate, LineAggregator, Run};
use crate::metrics::{Metrics, SizeInfo};
use crate::rects::{RectStyle, RenderRect};
use crate::units::{ceil_div, ceil_pixels, round_div, round_pixels, SUBPIXELS};

verus! {

/// Thickness of a line whose font metric is `thickness`: the metric, but
/// never less than one pixel.
pub open spec fn bar_height(thickness: int) -> int {
    if thickness < SUBPIXELS {
        SUBPIXELS as int
    } else {
        thickness
    }
}

/// Distance of the bottom of row `row` from the top of the grid.
pub open spec fn line_bottom(row: int, size: SizeInfo) -> int {
    (row + 1) * size.cell_height
}

/// Distance of the left edge of `run` from the left edge of the grid.
pub open spec fn bar_left(run: Run, size: SizeInfo) -> int {
    run.start.column * size.cell_width
}

/// Width of `run`.
pub open spec fn bar_width(run: Run, size: SizeInfo) -> int {
    (run.end.column + 1 - run.start.column) * size.cell_width
}

/// Distance from the top of the grid of the top of a line in row `row`.
/// The line's middle lies `offset` quarter subpixels above the baseline,
/// which lies `descent` subpixels below the bottom of the row; the
/// distance of its top is rounded up to whole pixels. A line that would
/// reach below the bottom of the row is moved up to end there.
pub open spec fn bar_top(row: int, descent: int, offset: int, thickness: int, size: SizeInfo)
    -> int {
    let height = bar_height(thickness);
    let bottom = line_bottom(row, size);
    let baseline = bottom + descent;
    let y = SUBPIXELS * ceil_div(4 * baseline - offset - 2 * height, 4 * SUBPIXELS);
    if y > bottom - height {
        bottom - height
    } else {
        y
    }
}

/// The rectangle of a line along `run`.
pub open spec fn bar(
    run: Run,
    descent: int,
    offset: int,
    thickness: int,
    style: RectStyle,
    size: SizeInfo,
) -> RenderRect {
    RenderRect {
        x: (bar_left(run, size) + size.padding_x) as i64,
        y: (bar_top(run.start.row as int, descent, offset, thickness, size) + size.padding_y)
            as i64,
        width: bar_width(run, size) as i64,
        height: bar_height(thickness) as i64,
        color: run.color,
        alpha: 255,
        style,
    }
}

/// Period of a dotted underline: twice the thickness of the line, which
/// is rounded to whole pixels first.
pub open spec fn dotted_period(metrics: Metrics) -> int {
    2 * SUBPIXELS * round_div(bar_height(metrics.underline_thickness as int), SUBPIXELS as int)
}

/// Period of a dashed underline: twice a quarter of the width of a cell,
/// which is taken as two pixels at least and rounded to whole pixels
/// first.
pub open spec fn dashed_period(size: SizeInfo) -> int {
    let width = if size.cell_width < 8 * SUBPIXELS {
        8 * SUBPIXELS
    } else {
        size.cell_width as int
    };
    2 * SUBPIXELS * round_div(width, 4 * SUBPIXELS)
}

/// The rectangles of one run of `kind`.
pub open spec fn run_rects(run: Run, kind: DecorationKind, metrics: Metrics, size: SizeInfo)
    -> Seq<RenderRect> {
    let descent = metrics.descent as int;
    match kind {
        DecorationKind::StrikeOut => seq![
            bar(
                run,
                descent,
                4 * metrics.strikeout_position,
                metrics.strikeout_thickness as int,
                RectStyle::Solid,
                size,
            ),
        ],
        DecorationKind::SingleUnderline => seq![
            bar(
                run,
                descent,
                4 * metrics.underline_position,
                metrics.underline_thickness as int,
                RectStyle::Solid,
                size,
            ),
        ],
        DecorationKind::DoubleUnderline => seq![
            bar(
                run,
                descent,
                descent,
                metrics.underline_thickness as int,
                RectStyle::Solid,
                size,
            ),
            bar(
                run,
                descent,
                3 * descent,
                metrics.underline_thickness as int,
                RectStyle::Solid,
                size,
            ),
        ],
        DecorationKind::DottedUnderline => seq![
            bar(
                run,
                descent,
                4 * metrics.underline_position,
                metrics.underline_thickness as int,
                RectStyle::Dashed { period: dotted_period(metrics) as i64 },
                size,
            ),
        ],
        DecorationKind::DashedUnderline => seq![
            bar(
                run,
                descent,
                4 * metrics.underline_position,
                metrics.underline_thickness as int,
                RectStyle::Dashed { period: dashed_period(size) as i64 },
                size,
            ),
        ],
    }
}

/// The rectangles of the runs of one kind, run by run.
pub open spec fn bucket_rects(
    runs: Seq<Run>,
    kind: DecorationKind,
    metrics: Metrics,
    size: SizeInfo,
) -> Seq<RenderRect>
    decreases runs.len(),
{
    if runs.len() == 0 {
        Seq::empty()
    } else {
        bucket_rects(runs.drop_last(), kind, metrics, size) + run_rects(
            runs.last(),
            kind,
            metrics,
            size,
        )
    }
}

/// The rectangles of a frame: those of the strikeout lines first, then
/// those of the single, double, dotted and dashed underlines.
pub open spec fn resolved(lines: LineAggregator, metrics: Metrics, size: SizeInfo) -> Seq<
    RenderRect,
> {
    bucket_rects(lines.runs(DecorationKind::StrikeOut), DecorationKind::StrikeOut, metrics, size)
        + bucket_rects(
        lines.runs(DecorationKind::SingleUnderline),
        DecorationKind::SingleUnderline,
        metrics,
        size,
    ) + bucket_rects(
        lines.runs(DecorationKind::DoubleUnderline),
        DecorationKind::DoubleUnderline,
        metrics,
        size,
    ) + bucket_rects(
        lines.runs(DecorationKind::DottedUnderline),
        DecorationKind::DottedUnderline,
        metrics,
        size,
    ) + bucket_rects(
        lines.runs(DecorationKind::DashedUnderline),
        DecorationKind::DashedUnderline,
        metrics,
        size,
    )
}

/// Number of rectangles that stand for one run of `kind`.
pub open spec fn rects_per_run(kind: DecorationKind) -> int {
    if kind == DecorationKind::DoubleUnderline {
        2
    } else {
        1
    }
}

/// Whether `rect` ends at or above the bottom of row `row`.
pub open spec fn ends_in_row(rect: RenderRect, row: int, size: SizeInfo) -> bool {
    rect.y - size.padding_y + rect.height <= line_bottom(row, size)
}

/// The fields of a line's rectangle hold the exact values: none of them
/// is too large for its field.
pub proof fn lemma_bar_is_exact(
    run: Run,
    descent: i32,
    offset: int,
    thickness: i32,
    style: RectStyle,
    size: SizeInfo,
)
    requires
        -0x4_0000_0000 <= offset <= 0x4_0000_0000,
    ensures
        bar(run, descent as int, offset, thickness as int, style, size).x == bar_left(run, size)
            + size.padding_x,
        bar(run, descent as int, offset, thickness as int, style, size).y == bar_top(
            run.start.row as int,
            descent as int,
            offset,
            thickness as int,
            size,
        ) + size.padding_y,
        bar(run, descent as int, offset, thickness as int, style, size).width == bar_width(
            run,
            size,
        ),
        bar(run, descent as int, offset, thickness as int, style, size).height == bar_height(
            thickness as int,
        ),
{
    lemma_cells_times_length(run.start.column as int, size.cell_width as int);
    lemma_cells_times_length(run.end.column + 1 - run.start.column, size.cell_width as int);
    lemma_cells_times_length(run.start.row + 1, size.cell_height as int);
}

/// The dash periods are whole, even numbers of pixels that fit their
/// field: at least two pixels for a dotted underline, at least four for
/// a dashed one.
pub proof fn lemma_periods_are_even_pixels(metrics: Metrics, size: SizeInfo)
    ensures
        dotted_period(metrics) as i64 == dotted_period(metrics),
        dotted_period(metrics) % (2 * SUBPIXELS as int) == 0,
        dotted_period(metrics) >= 2 * SUBPIXELS,
        dashed_period(size) as i64 == dashed_period(size),
        dashed_period(size) % (2 * SUBPIXELS as int) == 0,
        dashed_period(size) >= 4 * SUBPIXELS,
{
    let height = bar_height(metrics.underline_thickness as int);
    let dots = round_div(height, SUBPIXELS as int);
    assert(dots == (2 * height + 64) / 128);
    assert(1 <= dots <= 0x200_0000);
    assert(dotted_period(metrics) == 128 * dots);
    let width = if size.cell_width < 512 {
        512
    } else {
        size.cell_width as int
    };
    let dashes = round_div(width, 4 * SUBPIXELS);
    assert(dashes == (2 * width + 256) / 512);
    assert(2 <= dashes <= 0x80_0000);
    assert(dashed_period(size) == 128 * dashes);
}

/// A line is at least one pixel thick, whatever the font says, and ends
/// at or above the bottom of its row.
pub proof fn lemma_bar_thick_and_in_row(
    run: Run,
    descent: i32,
    offset: int,
    thickness: i32,
    style: RectStyle,
    size: SizeInfo,
)
    requires
        -0x4_0000_0000 <= offset <= 0x4_0000_0000,
    ensures
        bar(run, descent as int, offset, thickness as int, style, size).height >= SUBPIXELS,
        bar(run, descent as int, offset, thickness as int, style, size).height >= thickness,
        ends_in_row(
            bar(run, descent as int, offset, thickness as int, style, size),
            run.start.row as int,
            size,
        ),
{
    lemma_bar_is_exact(run, descent, offset, thickness, style, size);
}

/// Every rectangle of a run is at least one pixel thick and ends at or
/// above the bottom of the run's row.
pub proof fn lemma_run_rects_thick_and_in_row(
    run: Run,
    kind: DecorationKind,
    metrics: Metrics,
    size: SizeInfo,
)
    ensures
        run_rects(run, kind, metrics, size).len() == rects_per_run(kind),
        forall|j: int|
            0 <= j < rects_per_run(kind) ==> (
                (#[trigger] run_rects(run, kind, metrics, size)[j]).height >= SUBPIXELS
                && ends_in_row(run_rects(run, kind, metrics, size)[j], run.start.row as int, size)
            ),
{
    let d = metrics.descent;
    let t = metrics.underline_thickness;
    let dotted = RectStyle::Dashed { period: dotted_period(metrics) as i64 };
    let dashed = RectStyle::Dashed { period: dashed_period(size) as i64 };
    lemma_bar_thick_and_in_row(
        run,
        d,
        4 * metrics.strikeout_position,
        metrics.strikeout_thickness,
        RectStyle::Solid,
        size,
    );
    lemma_bar_thick_and_in_row(run, d, 4 * metrics.underline_position, t, RectStyle::Solid, size);
    lemma_bar_thick_and_in_row(run, d, d as int, t, RectStyle::Solid, size);
    lemma_bar_thick_and_in_row(run, d, 3 * d, t, RectStyle::Solid, size);
    lemma_bar_thick_and_in_row(run, d, 4 * metrics.underline_position, t, dotted, size);
    lemma_bar_thick_and_in_row(run, d, 4 * metrics.underline_position, t, dashed, size);
}

/// Place among `runs` of the run that the rectangle at place `i` of their
/// rectangles stands for.
pub open spec fn run_of_rect(kind: DecorationKind, i: int) -> int {
    if kind == DecorationKind::DoubleUnderline {
        i / 2
    } else {
        i
    }
}

/// Place among the rectangles of its run of the rectangle at place `i`
/// of the rectangles of the runs of one kind.
pub open spec fn part_of_rect(kind: DecorationKind, i: int) -> int {
    if kind == DecorationKind::DoubleUnderline {
        i % 2
    } else {
        0
    }
}

/// The rectangles of the runs of a double underline stand run by run,
/// two for each run.
proof fn lemma_double_rects_by_run(runs: Seq<Run>, metrics: Metrics, size: SizeInfo)
    ensures
        bucket_rects(runs, DecorationKind::DoubleUnderline, metrics, size).len() == 2
            * runs.len(),
        forall|i: int|
            0 <= i < 2 * runs.len() ==> #[trigger] bucket_rects(
                runs,
                DecorationKind::DoubleUnderline,
                metrics,
                size,
            )[i] == run_rects(runs[i / 2], DecorationKind::DoubleUnderline, metrics, size)[i % 2],
    decreases runs.len(),
{
    let kind = DecorationKind::DoubleUnderline;
    if runs.len() > 0 {
        let front = runs.drop_last();
        lemma_double_rects_by_run(front, metrics, size);
        let rects = bucket_rects(runs, kind, metrics, size);
        let before = bucket_rects(front, kind, metrics, size);
        let last = run_rects(runs.last(), kind, metrics, size);
        assert(last.len() == 2);
        assert(rects == before + last);
        assert(before.len() == 2 * front.len());
        assert forall|i: int| 0 <= i < 2 * runs.len() implies #[trigger] rects[i] == run_rects(
            runs[i / 2],
            kind,
            metrics,
            size,
        )[i % 2] by {
            if i < 2 * front.len() {
                assert(rects[i] == before[i]);
                assert(front[i / 2] == runs[i / 2]);
            } else {
                assert(rects[i] == last[i - 2 * front.len()]);
                assert(i / 2 == runs.len() - 1);
                assert(runs[i / 2] == runs.last());
            }
        }
    }
}

/// The rectangles of the runs of a kind other than the double underline
/// stand run by run, one for each run.
proof fn lemma_single_rects_by_run(
    runs: Seq<Run>,
    kind: DecorationKind,
    metrics: Metrics,
    size: SizeInfo,
)
    requires
        kind != DecorationKind::DoubleUnderline,
    ensures
        bucket_rects(runs, kind, metrics, size).len() == runs.len(),
        forall|i: int|
            0 <= i < runs.len() ==> #[trigger] bucket_rects(runs, kind, metrics, size)[i]
                == run_rects(runs[i], kind, metrics, size)[0],
    decreases runs.len(),
{
    if runs.len() > 0 {
        let front = runs.drop_last();
        lemma_single_rects_by_run(front, kind, metrics, size);
        let rects = bucket_rects(runs, kind, metrics, size);
        let before = bucket_rects(front, kind, metrics, size);
        let last = run_rects(runs.last(), kind, metrics, size);
        assert(last.len() == 1);
        assert(rects == before + last);
        assert(before.len() == front.len());
        assert forall|i: int| 0 <= i < runs.len() implies #[trigger] rects[i] == run_rects(
            runs[i],
            kind,
            metrics,
            size,
        )[0] by {
            if i < front.len() {
                assert(rects[i] == before[i]);
                assert(front[i] == runs[i]);
            } else {
                assert(rects[i] == last[0]);
                assert(runs[i] == runs.last());
            }
        }
    }
}

/// The rectangles of the runs of one kind stand run by run: one for each
/// run, two for each run of a double underline.
pub proof fn lemma_bucket_rects_by_run(
    runs: Seq<Run>,
    kind: DecorationKind,
    metrics: Metrics,
    size: SizeInfo,
)
    ensures
        kind == DecorationKind::DoubleUnderline ==> bucket_rects(runs, kind, metrics, size).len()
            == 2 * runs.len(),
        kind != DecorationKind::DoubleUnderline ==> bucket_rects(runs, kind, metrics, size).len()
            == runs.len(),
        forall|i: int|
            0 <= i < bucket_rects(runs, kind, metrics, size).len() ==> (0 <= run_of_rect(kind, i)
                < runs.len() && 0 <= part_of_rect(kind, i) < rects_per_run(kind)
                && #[trigger] bucket_rects(runs, kind, metrics, size)[i] == run_rects(
                runs[run_of_rect(kind, i)],
                kind,
                metrics,
                size,
            )[part_of_rect(kind, i)]),
{
    if kind == DecorationKind::DoubleUnderline {
        lemma_double_rects_by_run(runs, metrics, size);
    } else {
        lemma_single_rects_by_run(runs, kind, metrics, size);
    }
}

/// A double underline gives exactly two solid rectangles for each run,
/// equal but for their height above the baseline: the first has its
/// middle a quarter of the descent above the baseline, the second three
/// quarters. With a descent below the baseline the second is therefore
/// the one further below it, and it never lies above the first. With any
/// other descent both end with the row, one upon the other.
pub proof fn lemma_double_underline_two_solid_rects(
    runs: Seq<Run>,
    k: int,
    metrics: Metrics,
    size: SizeInfo,
)
    requires
        0 <= k < runs.len(),
    ensures
        bucket_rects(runs, DecorationKind::DoubleUnderline, metrics, size).len() == 2
            * runs.len(),
        bucket_rects(runs, DecorationKind::DoubleUnderline, metrics, size)[2 * k] == bar(
            runs[k],
            metrics.descent as int,
            metrics.descent as int,
            metrics.underline_thickness as int,
            RectStyle::Solid,
            size,
        ),
        bucket_rects(runs, DecorationKind::DoubleUnderline, metrics, size)[2 * k + 1] == bar(
            runs[k],
            metrics.descent as int,
            3 * metrics.descent,
            metrics.underline_thickness as int,
            RectStyle::Solid,
            size,
        ),
        metrics.descent < 0 ==> -(3 * metrics.descent) > -metrics.descent && bucket_rects(
            runs,
            DecorationKind::DoubleUnderline,
            metrics,
            size,
        )[2 * k + 1].y >= bucket_rects(runs, DecorationKind::DoubleUnderline, metrics, size)[2
            * k].y,
        metrics.descent >= 0 ==> bucket_rects(
            runs,
            DecorationKind::DoubleUnderline,
            metrics,
            size,
        )[2 * k + 1].y == bucket_rects(runs, DecorationKind::DoubleUnderline, metrics, size)[2
            * k].y,
{
    let kind = DecorationKind::DoubleUnderline;
    let d = metrics.descent;
    let t = metrics.underline_thickness;
    lemma_double_rects_by_run(runs, metrics, size);
    let rects = bucket_rects(runs, kind, metrics, size);
    assert((2 * k) / 2 == k && (2 * k) % 2 == 0);
    assert((2 * k + 1) / 2 == k && (2 * k + 1) % 2 == 1);
    assert(rects[2 * k] == run_rects(runs[k], kind, metrics, size)[0]);
    assert(rects[2 * k + 1] == run_rects(runs[k], kind, metrics, size)[1]);
    lemma_bar_is_exact(runs[k], d, d as int, t, RectStyle::Solid, size);
    lemma_bar_is_exact(runs[k], d, 3 * d, t, RectStyle::Solid, size);
}

/// Every rectangle of the runs of one kind is at least one pixel thick,
/// and ends at or above the bottom of the row of the run that it stands
/// for.
pub proof fn lemma_rects_thick_and_in_row(
    runs: Seq<Run>,
    kind: DecorationKind,
    metrics: Metrics,
    size: SizeInfo,
)
    ensures
        forall|i: int|
            0 <= i < bucket_rects(runs, kind, metrics, size).len() ==> (
                (#[trigger] bucket_rects(runs, kind, metrics, size)[i]).height >= SUBPIXELS
                && 0 <= run_of_rect(kind, i) < runs.len()
                && ends_in_row(
                    bucket_rects(runs, kind, metrics, size)[i],
                    runs[run_of_rect(kind, i)].start.row as int,
                    size,
                )
            ),
{
    lemma_bucket_rects_by_run(runs, kind, metrics, size);
    let rects = bucket_rects(runs, kind, metrics, size);
    assert forall|i: int| 0 <= i < rects.len() implies (#[trigger] rects[i]).height >= SUBPIXELS
        && 0 <= run_of_rect(kind, i) < runs.len() && ends_in_row(
        rects[i],
        runs[run_of_rect(kind, i)].start.row as int,
        size,
    ) by {
        let run = runs[run_of_rect(kind, i)];
        lemma_run_rects_thick_and_in_row(run, kind, metrics, size);
        assert(rects[i] == run_rects(run, kind, metrics, size)[part_of_rect(kind, i)]);
    }
}

/// Whether `rect` ends at or above the bottom of the row of one of the
/// runs of `lines`.
pub open spec fn ends_in_row_of_a_run(rect: RenderRect, lines: LineAggregator, size: SizeInfo)
    -> bool {
    exists|kind: DecorationKind, k: int|
        0 <= k < lines.runs(kind).len() && ends_in_row(
            rect,
            (#[trigger] lines.runs(kind)[k]).start.row as int,
            size,
        )
}

/// The rectangles of one kind are among those of the frame, one after
/// the other, from the place `before` on.
proof fn lemma_bucket_in_frame(
    lines: LineAggregator,
    kind: DecorationKind,
    metrics: Metrics,
    size: SizeInfo,
    before: nat,
)
    requires
        before + bucket_rects(lines.runs(kind), kind, metrics, size).len() <= resolved(
            lines,
            metrics,
            size,
        ).len(),
        forall|j: int|
            0 <= j < bucket_rects(lines.runs(kind), kind, metrics, size).len() ==> resolved(
                lines,
                metrics,
                size,
            )[before + j] == #[trigger] bucket_rects(lines.runs(kind), kind, metrics, size)[j],
    ensures
        forall|i: int|
            before <= i < before + bucket_rects(lines.runs(kind), kind, metrics, size).len() ==> (
                (#[trigger] resolved(lines, metrics, size)[i]).height >= SUBPIXELS
                && ends_in_row_of_a_run(resolved(lines, metrics, size)[i], lines, size)
            ),
{
    let runs = lines.runs(kind);
    let rects = bucket_rects(runs, kind, metrics, size);
    let frame = resolved(lines, metrics, size);
    lemma_rects_thick_and_in_row(runs, kind, metrics, size);
    assert forall|i: int| before <= i < before + rects.len() implies (#[trigger] frame[i]).height
        >= SUBPIXELS && ends_in_row_of_a_run(frame[i], lines, size) by {
        let j = i - before;
        let k = run_of_rect(kind, j);
        assert(frame[before + j] == rects[j]);
        assert(rects[j].height >= SUBPIXELS);
        assert(ends_in_row(rects[j], lines.runs(kind)[k].start.row as int, size));
    }
}

/// Every rectangle of a frame is at least one pixel thick, whatever the
/// font says, and ends at or above the bottom of the row of a run of the
/// frame.
pub proof fn lemma_resolved_thick_and_in_row(
    lines: LineAggregator,
    metrics: Metrics,
    size: SizeInfo,
)
    ensures
        forall|i: int|
            0 <= i < resolved(lines, metrics, size).len() ==> (
                (#[trigger] resolved(lines, metrics, size)[i]).height >= SUBPIXELS
                && ends_in_row_of_a_run(resolved(lines, metrics, size)[i], lines, size)
            ),
{
    let b0 = bucket_rects(
        lines.runs(DecorationKind::StrikeOut),
        DecorationKind::StrikeOut,
        metrics,
        size,
    );
    let b1 = bucket_rects(
        lines.runs(DecorationKind::SingleUnderline),
        DecorationKind::SingleUnderline,
        metrics,
        size,
    );
    let b2 = bucket_rects(
        lines.runs(DecorationKind::DoubleUnderline),
        DecorationKind::DoubleUnderline,
        metrics,
        size,
    );
    let b3 = bucket_rects(
        lines.runs(DecorationKind::DottedUnderline),
        DecorationKind::DottedUnderline,
        metrics,
        size,
    );
    let b4 = bucket_rects(
        lines.runs(DecorationKind::DashedUnderline),
        DecorationKind::DashedUnderline,
        metrics,
        size,
    );
    assert(resolved(lines, metrics, size) == b0 + b1 + b2 + b3 + b4);
    lemma_bucket_in_frame(lines, DecorationKind::StrikeOut, metrics, size, 0);
    lemma_bucket_in_frame(lines, DecorationKind::SingleUnderline, metrics, size, b0.len());
    lemma_bucket_in_frame(
        lines,
        DecorationKind::DoubleUnderline,
        metrics,
        size,
        b0.len() + b1.len(),
    );
    lemma_bucket_in_frame(
        lines,
        DecorationKind::DottedUnderline,
        metrics,
        size,
        b0.len() + b1.len() + b2.len(),
    );
    lemma_bucket_in_frame(
        lines,
        DecorationKind::DashedUnderline,
        metrics,
        size,
        b0.len() + b1.len() + b2.len() + b3.len(),
    );
}

/// A frame has one rectangle for each run, and two for each run of a
/// double underline.
pub proof fn lemma_resolved_count(lines: LineAggregator, metrics: Metrics, size: SizeInfo)
    ensures
        resolved(lines, metrics, size).len() == lines.runs(DecorationKind::StrikeOut).len()
            + lines.runs(DecorationKind::SingleUnderline).len() + 2 * lines.runs(
            DecorationKind::DoubleUnderline,
        ).len() + lines.runs(DecorationKind::DottedUnderline).len() + lines.runs(
            DecorationKind::DashedUnderline,
        ).len(),
{
    lemma_bucket_rects_by_run(
        lines.runs(DecorationKind::StrikeOut),
        DecorationKind::StrikeOut,
        metrics,
        size,
    );
    lemma_bucket_rects_by_run(
        lines.runs(DecorationKind::SingleUnderline),
        DecorationKind::SingleUnderline,
        metrics,
        size,
    );
    lemma_bucket_rects_by_run(
        lines.runs(DecorationKind::DoubleUnderline),
        DecorationKind::DoubleUnderline,
        metrics,
        size,
    );
    lemma_bucket_rects_by_run(
        lines.runs(DecorationKind::DottedUnderline),
        DecorationKind::DottedUnderline,
        metrics,
        size,
    );
    lemma_bucket_rects_by_run(
        lines.runs(DecorationKind::DashedUnderline),
        DecorationKind::DashedUnderline,
        metrics,
        size,
    );
}

/// Two frames with the same runs, the same metrics and the same layout
/// have the same rectangles.
pub proof fn lemma_same_runs_same_rects(
    first: LineAggregator,
    second: LineAggregator,
    metrics: Metrics,
    size: SizeInfo,
)
    requires
        forall|kind: DecorationKind| first.runs(kind) == second.runs(kind),
    ensures
        resolved(first, metrics, size) == resolved(second, metrics, size),
{
}

/// Two frames that took the same cells in the same order have, with the
/// same metrics and the same layout, the same rectangles.
pub proof fn lemma_same_cells_same_rects(
    first: LineAggregator,
    second: LineAggregator,
    cells: Seq<DecoratedCell>,
    metrics: Metrics,
    size: SizeInfo,
)
    requires
        forall|kind: DecorationKind| first.runs(kind) == aggregate(cells, kind),
        forall|kind: DecorationKind| second.runs(kind) == aggregate(cells, kind),
    ensures
        resolved(first, metrics, size) == resolved(second, metrics, size),
{
    lemma_same_runs_same_rects(first, second, metrics, size);
}

/// The product of a count of cells and a length stays far inside 64 bits.
proof fn lemma_cells_times_length(cells: int, length: int)
    requires
        -0x1_0000 <= cells <= 0x1_0000,
        -0x8000_0000 <= length <= 0x8000_0000,
    ensures
        -0x8000_0000_0000 <= cells * length <= 0x8000_0000_0000,
{
    assert(-0x8000_0000_0000 <= cells * length <= 0x8000_0000_0000) by (nonlinear_arith)
        requires
            -0x1_0000 <= cells <= 0x1_0000,
            -0x8000_0000 <= length <= 0x8000_0000,
    ;
}

/// The thickness of a line: `thickness`, but never less than one pixel.
fn clamp_thickness(thickness: i32) -> (height: i64)
    ensures
        height == bar_height(thickness as int),
{
    if (thickness as i64) < SUBPIXELS {
        SUBPIXELS
    } else {
        thickness as i64
    }
}

/// The rectangle of a line along `run`, whose middle lies `offset` quarter
/// subpixels above the baseline.
fn create_rect(
    run: &Run,
    descent: i32,
    offset: i64,
    thickness: i32,
    style: RectStyle,
    size: &SizeInfo,
) -> (rect: RenderRect)
    requires
        -0x4_0000_0000 <= offset <= 0x4_0000_0000,
    ensures
        rect == bar(*run, descent as int, offset as int, thickness as int, style, *size),
{
    let cell_width: i64 = size.cell_width as i64;
    let cell_height: i64 = size.cell_height as i64;
    let first: i64 = run.start.column as i64;
    let cells: i64 = run.end.column as i64 + 1 - first;
    let rows: i64 = run.start.row as i64 + 1;
    proof {
        lemma_cells_times_length(first as int, cell_width as int);
        lemma_cells_times_length(cells as int, cell_width as int);
        lemma_cells_times_length(rows as int, cell_height as int);
    }
    let left: i64 = first * cell_width;
    let width: i64 = cells * cell_width;
    let height: i64 = clamp_thickness(thickness);
    let bottom: i64 = rows * cell_height;
    let baseline: i64 = bottom + descent as i64;
    let mut y: i64 = SUBPIXELS * ceil_pixels(4 * baseline - offset - 2 * height);
    let max_y: i64 = bottom - height;
    if y > max_y {
        y = max_y;
    }
    RenderRect {
        x: left + size.padding_x as i64,
        y: y + size.padding_y as i64,
        width,
        height,
        color: run.color,
        alpha: 255,
        style,
    }
}

/// Appends the rectangles of one run of `kind`.
fn push_rects(
    rects: &mut Vec<RenderRect>,
    run: &Run,
    kind: DecorationKind,
    metrics: &Metrics,
    size: &SizeInfo,
)
    ensures
        final(rects)@ == old(rects)@ + run_rects(*run, kind, *metrics, *size),
{
    let descent: i32 = metrics.descent;
    match kind {
        DecorationKind::StrikeOut => {
            rects.push(
                create_rect(
                    run,
                    descent,
                    4 * (metrics.strikeout_position as i64),
                    metrics.strikeout_thickness,
                    RectStyle::Solid,
                    size,
                ),
            );
        },
        DecorationKind::SingleUnderline => {
            rects.push(
                create_rect(
                    run,
                    descent,
                    4 * (metrics.underline_position as i64),
                    metrics.underline_thickness,
                    RectStyle::Solid,
                    size,
                ),
            );
        },
        DecorationKind::DoubleUnderline => {
            rects.push(
                create_rect(
                    run,
                    descent,
                    descent as i64,
                    metrics.underline_thickness,
                    RectStyle::Solid,
                    size,
                ),
            );
            rects.push(
                create_rect(
                    run,
                    descent,
                    3 * (descent as i64),
                    metrics.underline_thickness,
                    RectStyle::Solid,
                    size,
                ),
            );
        },
        DecorationKind::DottedUnderline => {
            let thickness: i64 = clamp_thickness(metrics.underline_thickness);
            // The thickness in quarter subpixels, rounded to pixels.
            let period: i64 = 2 * SUBPIXELS * round_pixels(4 * thickness);
            rects.push(
                create_rect(
                    run,
                    descent,
                    4 * (metrics.underline_position as i64),
                    metrics.underline_thickness,
                    RectStyle::Dashed { period },
                    size,
                ),
            );
        },
        DecorationKind::DashedUnderline => {
            let width: i64 = if (size.cell_width as i64) < 8 * SUBPIXELS {
                8 * SUBPIXELS
            } else {
                size.cell_width as i64
            };
            // A quarter of the width counts as many quarter subpixels as
            // the width counts subpixels.
            let period: i64 = 2 * SUBPIXELS * round_pixels(width);
            rects.push(
                create_rect(
                    run,
                    descent,
                    4 * (metrics.underline_position as i64),
                    metrics.underline_thickness,
                    RectStyle::Dashed { period },
                    size,
                ),
            );
        },
    }
}

/// Appends the rectangles of the runs of one kind, run by run.
fn push_bucket(
    rects: &mut Vec<RenderRect>,
    runs: &Vec<Run>,
    kind: DecorationKind,
    metrics: &Metrics,
    size: &SizeInfo,
)
    ensures
        final(rects)@ == old(rects)@ + bucket_rects(runs@, kind, *metrics, *size),
{
    let mut i: usize = 0;
    while i < runs.len()
        invariant
            i <= runs@.len(),
            rects@ == old(rects)@ + bucket_rects(runs@.take(i as int), kind, *metrics, *size),
        decreases runs@.len() - i,
    {
        assert(runs@.take(i + 1).drop_last() == runs@.take(i as int));
        push_rects(rects, &runs[i], kind, metrics, size);
        i += 1;
    }
    assert(runs@.take(i as int) == runs@);
}

/// The rectangles of a frame: for each kind in turn, those of its runs in
/// their order.
pub fn resolve(lines: &LineAggregator, metrics: &Metrics, size: &SizeInfo) -> (rects: Vec<
    RenderRect,
>)
    ensures
        rects@ == resolved(*lines, *metrics, *size),
        forall|i: int|
            0 <= i < rects@.len() ==> (
                (#[trigger] rects@[i]).height >= SUBPIXELS
                && ends_in_row_of_a_run(rects@[i], *lines, *size)
            ),
{
    proof {
        lemma_resolved_thick_and_in_row(*lines, *metrics, *size);
    }
    let mut rects: Vec<RenderRect> = Vec::new();
    push_bucket(
        &mut rects,
        lines.bucket(DecorationKind::StrikeOut),
        DecorationKind::StrikeOut,
        metrics,
        size,
    );
    push_bucket(
        &mut rects,
        lines.bucket(DecorationKind::SingleUnderline),
        DecorationKind::SingleUnderline,
        metrics,
        size,
    );
    push_bucket(
        &mut rects,
        lines.bucket(DecorationKind::DoubleUnderline),
        DecorationKind::DoubleUnderline,
        metrics,
        size,
    );
    push_bucket(
        &mut rects,
        lines.bucket(DecorationKind::DottedUnderline),
        DecorationKind::DottedUnderline,
        metrics,
        size,
    );
    push_bucket(
        &mut rects,
        lines.bucket(DecorationKind::DashedUnderline),
        DecorationKind::DashedUnderline,
        metrics,
        size,
    );
    rects
}

} // verus!
