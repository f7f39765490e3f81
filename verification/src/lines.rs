//! Merging decorated cells into horizontal runs.

use vstd::prelude::*;
use crate::cell::{DecoratedCell, Point};
use crate::color::Rgb;
use crate::flags::DecorationKind;

verus! {

/// A horizontal span of cells that share one decoration and one color.
#[derive(Clone, Copy, Debug, PartialEq, Eq, Structural)]
pub struct Run {
    /// The first cell of the span.
    pub start: Point,
    /// The last cell of the span.
    pub end: Point,
    /// The color of the decoration.
    pub color: Rgb,
}

impl Run {
    /// A run lies in one row and does not end before it starts.
    pub open spec fn wf(self) -> bool {
        self.start.row == self.end.row && self.start.column <= self.end.column
    }

    /// Whether `cell` continues this run: it has the run's color, lies in
    /// its row and directly follows its last column.
    pub open spec fn extended_by(self, cell: DecoratedCell) -> bool {
        self.color == cell.fg && self.end.row == cell.point.row && self.end.column + 1
            == cell.point.column
    }

    /// Whether `next` could have been part of this run: it has the same
    /// color and starts directly after this run, in the same row.
    pub open spec fn mergeable(self, next: Run) -> bool {
        self.color == next.color && self.end.row == next.start.row && self.end.column + 1
            == next.start.column
    }

    /// The run that consists of `cell` alone.
    pub open spec fn of_cell(cell: DecoratedCell) -> Run {
        Run { start: cell.point, end: cell.end(), color: cell.fg }
    }
}

/// The runs of one kind after a cell that carries this kind: the cell
/// extends the last run where it continues it, and starts a new run
/// otherwise.
pub open spec fn push_cell(runs: Seq<Run>, cell: DecoratedCell) -> Seq<Run> {
    if runs.len() > 0 && runs.last().extended_by(cell) {
        runs.update(runs.len() - 1, Run { end: cell.end(), ..runs.last() })
    } else {
        runs.push(Run::of_cell(cell))
    }
}

/// The runs of `kind` after `cell`: a cell without this kind leaves them
/// as they are.
pub open spec fn feed(runs: Seq<Run>, cell: DecoratedCell, kind: DecorationKind) -> Seq<Run> {
    if cell.flags.has(kind) {
        push_cell(runs, cell)
    } else {
        runs
    }
}

/// The runs of `kind` after the cells of `cells`, taken in order.
pub open spec fn feed_all(runs: Seq<Run>, cells: Seq<DecoratedCell>, kind: DecorationKind) -> Seq<
    Run,
>
    decreases cells.len(),
{
    if cells.len() == 0 {
        runs
    } else {
        feed(feed_all(runs, cells.drop_last(), kind), cells.last(), kind)
    }
}

/// The runs of `kind` that a frame with the cells `cells` gives.
pub open spec fn aggregate(cells: Seq<DecoratedCell>, kind: DecorationKind) -> Seq<Run> {
    feed_all(Seq::empty(), cells, kind)
}

/// Every run is well formed, and no run could have been merged with the
/// one before it.
pub open spec fn maximal(runs: Seq<Run>) -> bool {
    &&& forall|i: int| 0 <= i < runs.len() ==> (#[trigger] runs[i]).wf()
    &&& forall|i: int, j: int|
        0 <= i && j == i + 1 && j < runs.len() ==> !(#[trigger] runs[i]).mergeable(
            #[trigger] runs[j],
        )
}

/// Appending a well-formed cell keeps a list of runs maximal.
pub proof fn lemma_push_cell_maximal(runs: Seq<Run>, cell: DecoratedCell)
    requires
        maximal(runs),
        cell.wf(),
    ensures
        maximal(push_cell(runs, cell)),
{
    let next = push_cell(runs, cell);
    assert forall|i: int| 0 <= i < next.len() implies (#[trigger] next[i]).wf() by {
        if i < runs.len() - 1 {
            assert(next[i] == runs[i]);
        } else if i < runs.len() {
            assert(runs[i].wf());
        }
    }
    assert forall|i: int, j: int| 0 <= i && j == i + 1 && j < next.len() implies !(
    #[trigger] next[i]).mergeable(#[trigger] next[j]) by {
        if j < runs.len() {
            assert(!runs[i].mergeable(runs[j]));
        }
    }
}

/// Taking a well-formed cell keeps the runs of a kind maximal.
pub proof fn lemma_feed_all_maximal(runs: Seq<Run>, cells: Seq<DecoratedCell>, kind: DecorationKind)
    requires
        maximal(runs),
        forall|i: int| 0 <= i < cells.len() ==> (#[trigger] cells[i]).wf(),
    ensures
        maximal(feed_all(runs, cells, kind)),
    decreases cells.len(),
{
    if cells.len() > 0 {
        lemma_feed_all_maximal(runs, cells.drop_last(), kind);
        lemma_push_cell_maximal(feed_all(runs, cells.drop_last(), kind), cells.last());
    }
}

/// Whatever the cells of a frame and their order, the runs of each kind are
/// well formed, and no run could have been merged with the one before it.
pub proof fn lemma_aggregate_maximal(cells: Seq<DecoratedCell>, kind: DecorationKind)
    requires
        forall|i: int| 0 <= i < cells.len() ==> (#[trigger] cells[i]).wf(),
    ensures
        maximal(aggregate(cells, kind)),
{
    lemma_feed_all_maximal(Seq::empty(), cells, kind);
}

/// Cells that all carry `kind`, share one color and one row, and each
/// start in the column after the one where the cell before ends.
pub open spec fn contiguous(cells: Seq<DecoratedCell>, kind: DecorationKind) -> bool {
    &&& cells.len() > 0
    &&& forall|i: int|
        0 <= i < cells.len() ==> {
            &&& (#[trigger] cells[i]).wf()
            &&& cells[i].flags.has(kind)
            &&& cells[i].fg == cells[0].fg
            &&& cells[i].point.row == cells[0].point.row
        }
    &&& forall|i: int, j: int|
        0 <= i && j == i + 1 && j < cells.len() ==> (#[trigger] cells[j]).point.column == (
        #[trigger] cells[i]).end_column() + 1
}

/// The run from the first cell of `cells` to the end of the last.
pub open spec fn span(cells: Seq<DecoratedCell>) -> Run {
    Run { start: cells[0].point, end: cells.last().end(), color: cells[0].fg }
}

/// Contiguous cells of one kind give exactly one run of that kind, which
/// spans them all.
pub proof fn lemma_contiguous_cells_give_one_run(cells: Seq<DecoratedCell>, kind: DecorationKind)
    requires
        contiguous(cells, kind),
    ensures
        aggregate(cells, kind) == seq![span(cells)],
    decreases cells.len(),
{
    let last = cells.last();
    assert(last == cells[cells.len() - 1]);
    if cells.len() == 1 {
        assert(cells.drop_last() == Seq::<DecoratedCell>::empty());
        assert(feed_all(Seq::empty(), cells.drop_last(), kind) == Seq::<Run>::empty());
        assert(aggregate(cells, kind) == Seq::<Run>::empty().push(Run::of_cell(last)));
    } else {
        let front = cells.drop_last();
        assert(front[0] == cells[0]);
        assert forall|i: int| 0 <= i < front.len() implies {
            &&& (#[trigger] front[i]).wf()
            &&& front[i].flags.has(kind)
            &&& front[i].fg == front[0].fg
            &&& front[i].point.row == front[0].point.row
        } by {
            assert(front[i] == cells[i]);
        }
        assert forall|i: int, j: int| 0 <= i && j == i + 1 && j < front.len() implies (
        #[trigger] front[j]).point.column == (#[trigger] front[i]).end_column() + 1 by {
            assert(front[i] == cells[i] && front[j] == cells[j]);
        }
        lemma_contiguous_cells_give_one_run(front, kind);
        let before = front.last();
        assert(before == cells[cells.len() - 2]);
        assert(before.wf());
        assert(last.point.column == before.end_column() + 1);
        assert(span(front).extended_by(last));
        assert(aggregate(cells, kind) == seq![span(front)].update(
            0,
            Run { end: last.end(), ..span(front) },
        ));
    }
}

/// A cell of the same kind that has another color, lies in another row or
/// does not directly follow a contiguous span ends that span's run and
/// starts a second one.
pub proof fn lemma_break_gives_second_run(
    cells: Seq<DecoratedCell>,
    next: DecoratedCell,
    kind: DecorationKind,
)
    requires
        contiguous(cells, kind),
        next.wf(),
        next.flags.has(kind),
        next.fg != cells[0].fg || next.point.row != cells[0].point.row || next.point.column
            != cells.last().end_column() + 1,
    ensures
        aggregate(cells.push(next), kind) == seq![span(cells), Run::of_cell(next)],
{
    lemma_contiguous_cells_give_one_run(cells, kind);
    let all = cells.push(next);
    assert(all.drop_last() == cells);
    assert(all.last() == next);
    assert(cells.last() == cells[cells.len() - 1]);
    assert(cells.last().wf());
    assert(!span(cells).extended_by(next));
    assert(aggregate(all, kind) == seq![span(cells)].push(Run::of_cell(next)));
}

/// The run that takes a cell ends in the cell's row: in the cell's own
/// column, or one column further for a glyph of double width.
pub proof fn lemma_run_ends_with_cell(runs: Seq<Run>, cell: DecoratedCell, kind: DecorationKind)
    requires
        cell.wf(),
        cell.flags.has(kind),
    ensures
        feed(runs, cell, kind).len() > 0,
        feed(runs, cell, kind).last().end.row == cell.point.row,
        cell.flags.wide() ==> feed(runs, cell, kind).last().end.column == cell.point.column + 1,
        !cell.flags.wide() ==> feed(runs, cell, kind).last().end.column == cell.point.column,
{
}

/// Whether `run` covers `cell`: the cell lies in the run's row, between
/// its first and its last column.
pub open spec fn covers(run: Run, cell: DecoratedCell) -> bool {
    run.start.row == cell.point.row && run.end.row == cell.point.row && run.start.column
        <= cell.point.column && cell.end_column() <= run.end.column
}

/// Whether one of `runs` covers `cell` and has its color.
pub open spec fn covered(runs: Seq<Run>, cell: DecoratedCell) -> bool {
    exists|k: int|
        0 <= k < runs.len() && covers(#[trigger] runs[k], cell) && runs[k].color == cell.fg
}

/// A cell that is covered stays covered when another cell is taken.
proof fn lemma_push_cell_keeps_covered(runs: Seq<Run>, next: DecoratedCell, cell: DecoratedCell)
    requires
        maximal(runs),
        next.wf(),
        covered(runs, cell),
    ensures
        covered(push_cell(runs, next), cell),
{
    let k = choose|k: int|
        0 <= k < runs.len() && covers(#[trigger] runs[k], cell) && runs[k].color == cell.fg;
    let after = push_cell(runs, next);
    assert(covers(after[k], cell) && after[k].color == cell.fg);
}

/// No decoration is lost: every cell of a frame that carries `kind` is
/// covered by a run of `kind` in the cell's color.
pub proof fn lemma_every_cell_is_covered(cells: Seq<DecoratedCell>, kind: DecorationKind, i: int)
    requires
        forall|j: int| 0 <= j < cells.len() ==> (#[trigger] cells[j]).wf(),
        0 <= i < cells.len(),
        cells[i].flags.has(kind),
    ensures
        covered(aggregate(cells, kind), cells[i]),
    decreases cells.len(),
{
    let front = cells.drop_last();
    let last = cells.last();
    let before = aggregate(front, kind);
    let after = aggregate(cells, kind);
    lemma_aggregate_maximal(front, kind);
    if i == cells.len() - 1 {
        assert(covers(after[after.len() - 1], last) && after[after.len() - 1].color == last.fg);
    } else {
        lemma_every_cell_is_covered(front, kind, i);
        if last.flags.has(kind) {
            lemma_push_cell_keeps_covered(before, last, cells[i]);
        }
    }
}

/// Number of columns that the cells of `cells` with `kind` take up.
pub open spec fn cells_width(cells: Seq<DecoratedCell>, kind: DecorationKind) -> int
    decreases cells.len(),
{
    if cells.len() == 0 {
        0
    } else if cells.last().flags.has(kind) {
        cells_width(cells.drop_last(), kind) + cells.last().end_column() + 1
            - cells.last().point.column
    } else {
        cells_width(cells.drop_last(), kind)
    }
}

/// Number of columns that `runs` take up.
pub open spec fn runs_width(runs: Seq<Run>) -> int
    decreases runs.len(),
{
    if runs.len() == 0 {
        0
    } else {
        runs_width(runs.drop_last()) + runs.last().end.column + 1 - runs.last().start.column
    }
}

/// Nothing is added: the runs of a kind take up as many columns as the
/// cells that carry the kind.
pub proof fn lemma_runs_as_wide_as_cells(cells: Seq<DecoratedCell>, kind: DecorationKind)
    requires
        forall|j: int| 0 <= j < cells.len() ==> (#[trigger] cells[j]).wf(),
    ensures
        runs_width(aggregate(cells, kind)) == cells_width(cells, kind),
    decreases cells.len(),
{
    if cells.len() > 0 {
        let front = cells.drop_last();
        let last = cells.last();
        let before = aggregate(front, kind);
        let after = aggregate(cells, kind);
        lemma_runs_as_wide_as_cells(front, kind);
        if last.flags.has(kind) {
            if before.len() > 0 && before.last().extended_by(last) {
                assert(after.drop_last() == before.drop_last());
            } else {
                assert(after.drop_last() == before);
            }
        }
    }
}

/// Whether `point` comes before `next` as the grid is read: row by row
/// from the top, each row from the left.
pub open spec fn reads_before(point: Point, next: Point) -> bool {
    point.row < next.row || (point.row == next.row && point.column < next.column)
}

/// Cells in the order in which the grid is read: each cell starts after
/// the end of every cell before it.
pub open spec fn row_major(cells: Seq<DecoratedCell>) -> bool {
    forall|i: int, j: int|
        0 <= i < j < cells.len() ==> reads_before(
            (#[trigger] cells[i]).end(),
            (#[trigger] cells[j]).point,
        )
}

/// Runs from left to right and from top to bottom: each run starts after
/// the end of every run before it.
pub open spec fn left_to_right(runs: Seq<Run>) -> bool {
    forall|i: int, j: int|
        0 <= i < j < runs.len() ==> reads_before(
            (#[trigger] runs[i]).end,
            (#[trigger] runs[j]).start,
        )
}

/// Every run of a frame ends before a point that lies after the end of
/// all the frame's cells.
proof fn lemma_runs_end_before(cells: Seq<DecoratedCell>, kind: DecorationKind, point: Point)
    requires
        forall|i: int| 0 <= i < cells.len() ==> reads_before((#[trigger] cells[i]).end(), point),
    ensures
        forall|k: int|
            0 <= k < aggregate(cells, kind).len() ==> reads_before(
                (#[trigger] aggregate(cells, kind)[k]).end,
                point,
            ),
    decreases cells.len(),
{
    if cells.len() > 0 {
        let front = cells.drop_last();
        assert forall|i: int| 0 <= i < front.len() implies reads_before(
            (#[trigger] front[i]).end(),
            point,
        ) by {
            assert(front[i] == cells[i]);
        }
        lemma_runs_end_before(front, kind, point);
        assert(cells.last() == cells[cells.len() - 1]);
        let before = aggregate(front, kind);
        let after = aggregate(cells, kind);
        assert forall|k: int| 0 <= k < after.len() implies reads_before(
            (#[trigger] after[k]).end,
            point,
        ) by {
            if k < before.len() - 1 {
                assert(after[k] == before[k]);
            } else if k < before.len() {
                assert(after[k] == before[k] || after[k].end == cells.last().end());
            }
        }
    }
}

/// Where the cells of a frame come in the order in which the grid is read,
/// the runs of each kind stand from left to right and from top to bottom.
pub proof fn lemma_row_major_cells_give_ordered_runs(
    cells: Seq<DecoratedCell>,
    kind: DecorationKind,
)
    requires
        row_major(cells),
    ensures
        left_to_right(aggregate(cells, kind)),
    decreases cells.len(),
{
    if cells.len() > 0 {
        let front = cells.drop_last();
        let last = cells.last();
        assert(last == cells[cells.len() - 1]);
        assert forall|i: int, j: int| 0 <= i < j < front.len() implies reads_before(
            (#[trigger] front[i]).end(),
            (#[trigger] front[j]).point,
        ) by {
            assert(front[i] == cells[i] && front[j] == cells[j]);
        }
        lemma_row_major_cells_give_ordered_runs(front, kind);
        assert forall|i: int| 0 <= i < front.len() implies reads_before(
            (#[trigger] front[i]).end(),
            last.point,
        ) by {
            assert(front[i] == cells[i]);
        }
        lemma_runs_end_before(front, kind, last.point);
        let before = aggregate(front, kind);
        let after = aggregate(cells, kind);
        assert forall|i: int, j: int| 0 <= i < j < after.len() implies reads_before(
            (#[trigger] after[i]).end,
            (#[trigger] after[j]).start,
        ) by {
            if j < before.len() {
                assert(after[i] == before[i]);
                assert(after[j].start == before[j].start);
            } else {
                assert(after[i] == before[i]);
            }
        }
    }
}

/// The runs of the current frame, one list per kind of decoration.
#[derive(Debug)]
pub struct LineAggregator {
    strikeout: Vec<Run>,
    underline: Vec<Run>,
    double_underline: Vec<Run>,
    dotted_underline: Vec<Run>,
    dashed_underline: Vec<Run>,
}

/// Takes `cell` into the runs of one kind.
fn push_run(runs: &mut Vec<Run>, cell: &DecoratedCell)
    requires
        cell.wf(),
    ensures
        final(runs)@ == push_cell(old(runs)@, *cell),
{
    let end: Point = cell.end_point();
    let n: usize = runs.len();
    if n > 0 {
        let last: Run = runs[n - 1];
        if last.color == cell.fg && last.end.row == cell.point.row && cell.point.column > 0
            && last.end.column == cell.point.column - 1 {
            runs[n - 1].end = end;
            return ;
        }
    }
    runs.push(Run { start: cell.point, end, color: cell.fg });
}

impl LineAggregator {
    /// The runs of `kind`, in the order in which they were started.
    pub closed spec fn runs(self, kind: DecorationKind) -> Seq<Run> {
        match kind {
            DecorationKind::StrikeOut => self.strikeout@,
            DecorationKind::SingleUnderline => self.underline@,
            DecorationKind::DoubleUnderline => self.double_underline@,
            DecorationKind::DottedUnderline => self.dotted_underline@,
            DecorationKind::DashedUnderline => self.dashed_underline@,
        }
    }

    /// The runs of every kind are maximal.
    pub open spec fn wf(self) -> bool {
        forall|kind: DecorationKind| maximal(#[trigger] self.runs(kind))
    }

    /// An aggregator without runs.
    pub fn new() -> (lines: LineAggregator)
        ensures
            lines.wf(),
            forall|kind: DecorationKind| lines.runs(kind) == Seq::<Run>::empty(),
    {
        LineAggregator {
            strikeout: Vec::new(),
            underline: Vec::new(),
            double_underline: Vec::new(),
            dotted_underline: Vec::new(),
            dashed_underline: Vec::new(),
        }
    }

    /// Takes one cell of the frame into the runs of each kind that the
    /// cell carries: the last run of the kind then ends where the cell
    /// ends. The runs of the other kinds stay as they are.
    pub fn update(&mut self, cell: &DecoratedCell)
        requires
            old(self).wf(),
            cell.wf(),
        ensures
            final(self).wf(),
            forall|kind: DecorationKind|
                final(self).runs(kind) == feed(old(self).runs(kind), *cell, kind),
            forall|kind: DecorationKind|
                cell.flags.has(kind) ==> (
                    (#[trigger] final(self).runs(kind)).len() > 0
                    && final(self).runs(kind).last().end == cell.end()
                ),
    {
        proof {
            assert(maximal(self.runs(DecorationKind::StrikeOut)));
            assert(maximal(self.runs(DecorationKind::SingleUnderline)));
            assert(maximal(self.runs(DecorationKind::DoubleUnderline)));
            assert(maximal(self.runs(DecorationKind::DottedUnderline)));
            assert(maximal(self.runs(DecorationKind::DashedUnderline)));
            lemma_push_cell_maximal(self.strikeout@, *cell);
            lemma_push_cell_maximal(self.underline@, *cell);
            lemma_push_cell_maximal(self.double_underline@, *cell);
            lemma_push_cell_maximal(self.dotted_underline@, *cell);
            lemma_push_cell_maximal(self.dashed_underline@, *cell);
        }
        if cell.flags.contains(DecorationKind::StrikeOut) {
            push_run(&mut self.strikeout, cell);
        }
        if cell.flags.contains(DecorationKind::SingleUnderline) {
            push_run(&mut self.underline, cell);
        }
        if cell.flags.contains(DecorationKind::DoubleUnderline) {
            push_run(&mut self.double_underline, cell);
        }
        if cell.flags.contains(DecorationKind::DottedUnderline) {
            push_run(&mut self.dotted_underline, cell);
        }
        if cell.flags.contains(DecorationKind::DashedUnderline) {
            push_run(&mut self.dashed_underline, cell);
        }
    }

    /// Takes the cells of `cells` into the runs, in order.
    pub fn update_all(&mut self, cells: &[DecoratedCell])
        requires
            old(self).wf(),
            forall|i: int| 0 <= i < cells@.len() ==> (#[trigger] cells@[i]).wf(),
        ensures
            final(self).wf(),
            forall|kind: DecorationKind|
                final(self).runs(kind) == feed_all(old(self).runs(kind), cells@, kind),
    {
        let mut i: usize = 0;
        while i < cells.len()
            invariant
                i <= cells@.len(),
                self.wf(),
                forall|j: int| 0 <= j < cells@.len() ==> (#[trigger] cells@[j]).wf(),
                forall|kind: DecorationKind|
                    self.runs(kind) == feed_all(old(self).runs(kind), cells@.take(i as int), kind),
            decreases cells@.len() - i,
        {
            assert(cells@.take(i + 1).drop_last() == cells@.take(i as int));
            self.update(&cells[i]);
            i += 1;
        }
        assert(cells@.take(i as int) == cells@);
    }

    /// Drops the runs of every kind; the storage is kept for the next frame.
    pub fn reset(&mut self)
        ensures
            final(self).wf(),
            forall|kind: DecorationKind| final(self).runs(kind) == Seq::<Run>::empty(),
    {
        self.strikeout.clear();
        self.underline.clear();
        self.double_underline.clear();
        self.dotted_underline.clear();
        self.dashed_underline.clear();
    }

    /// The runs of `kind`, in the order in which they were started.
    pub fn bucket(&self, kind: DecorationKind) -> (runs: &Vec<Run>)
        ensures
            runs@ == self.runs(kind),
    {
        match kind {
            DecorationKind::StrikeOut => &self.strikeout,
            DecorationKind::SingleUnderline => &self.underline,
            DecorationKind::DoubleUnderline => &self.double_underline,
            DecorationKind::DottedUnderline => &self.dotted_underline,
            DecorationKind::DashedUnderline => &self.dashed_underline,
        }
    }
}

} // verus!
