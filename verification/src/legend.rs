//! The legend of a grid: one entry for every identifier that occurs in it.

use vstd::prelude::*;
use crate::cell::{CellView, ODSCell};

verus! {

/// The identifiers of a sequence of cells, in order.
pub open spec fn ids(cells: Seq<CellView>) -> Seq<Seq<char>> {
    cells.map_values(|cell: CellView| cell.id)
}

/// Whether some cell of the sequence carries the identifier.
pub open spec fn has_id(cells: Seq<CellView>, id: Seq<char>) -> bool {
    exists|k: int| 0 <= k < cells.len() && (#[trigger] cells[k]).id == id
}

/// Whether some cell of the grid carries the identifier.
pub open spec fn grid_has_id(rows: Seq<Seq<CellView>>, id: Seq<char>) -> bool {
    exists|i: int, j: int|
        0 <= i < rows.len() && 0 <= j < rows[i].len() && (#[trigger] rows[i][j]).id == id
}

/// The identifiers that occur in the grid.
pub open spec fn grid_ids(rows: Seq<Seq<CellView>>) -> Set<Seq<char>> {
    Set::new(|id: Seq<char>| grid_has_id(rows, id))
}

/// Number of cells in the grid.
pub open spec fn cell_count(rows: Seq<Seq<CellView>>) -> nat
    decreases rows.len(),
{
    if rows.len() == 0 {
        0
    } else {
        cell_count(rows.drop_last()) + rows.last().len()
    }
}

/// The legend after one more cell: a cell with a new identifier is added at
/// the end; a cell with a known identifier takes the place of the entry
/// under that identifier.
pub open spec fn record(entries: Seq<CellView>, cell: CellView) -> Seq<CellView> {
    if has_id(entries, cell.id) {
        entries.map_values(
            |entry: CellView|
                if entry.id == cell.id {
                    cell
                } else {
                    entry
                },
        )
    } else {
        entries.push(cell)
    }
}

/// The legend after the cells of one row, from left to right.
pub open spec fn record_row(entries: Seq<CellView>, row: Seq<CellView>) -> Seq<CellView>
    decreases row.len(),
{
    if row.len() == 0 {
        entries
    } else {
        record(record_row(entries, row.drop_last()), row.last())
    }
}

/// The legend after the rows of a grid, from top to bottom.
pub open spec fn record_rows(entries: Seq<CellView>, rows: Seq<Seq<CellView>>) -> Seq<CellView>
    decreases rows.len(),
{
    if rows.len() == 0 {
        entries
    } else {
        record_row(record_rows(entries, rows.drop_last()), rows.last())
    }
}

/// The legend of a grid: its cells recorded in row-major order, starting
/// from nothing.
pub open spec fn legend_of(rows: Seq<Seq<CellView>>) -> Seq<CellView> {
    record_rows(Seq::empty(), rows)
}

/// Identifier and colour pairs, no identifier twice.
#[derive(Debug, PartialEq, Eq)]
pub struct Legend {
    pub entries: Vec<ODSCell>,
}

impl View for Legend {
    type V = Seq<CellView>;

    open spec fn view(&self) -> Seq<CellView> {
        Seq::new(self.entries@.len(), |k: int| self.entries@[k]@)
    }
}

impl Legend {
    /// No identifier occurs in two entries.
    pub open spec fn wf(&self) -> bool {
        ids(self@).no_duplicates()
    }

    /// The legend without entries.
    pub fn new() -> (legend: Legend)
        ensures
            legend@ == Seq::<CellView>::empty(),
            legend.wf(),
    {
        let legend = Legend { entries: Vec::new() };
        assert(legend@ =~= Seq::<CellView>::empty());
        legend
    }

    /// Number of entries.
    pub fn len(&self) -> (n: usize)
        ensures
            n == self@.len(),
    {
        self.entries.len()
    }

    /// Records the identifier and colour of one cell.
    pub fn record(&mut self, cell: &ODSCell)
        requires
            old(self).wf(),
        ensures
            final(self).wf(),
            final(self)@ == record(old(self)@, cell@),
    {
        let ghost before = self@;
        let mut k: usize = 0;
        while k < self.entries.len()
            invariant
                before == old(self)@,
                self@ == before,
                self.wf(),
                k <= self.entries@.len(),
                forall|m: int| 0 <= m < k ==> (#[trigger] before[m]).id != cell@.id,
            decreases self.entries@.len() - k,
        {
            if self.entries[k].id == cell.id {
                self.entries.set(k, ODSCell { id: cell.id.clone(), rgb: cell.rgb });
                proof {
                    assert(before[k as int].id == cell@.id);
                    assert forall|m: int| 0 <= m < before.len() && m != k implies (
                    #[trigger] before[m]).id != cell@.id by {
                        assert(ids(before)[m] == before[m].id);
                        assert(ids(before)[k as int] == before[k as int].id);
                    }
                    assert(self@ =~= record(before, cell@));
                    assert(ids(self@) =~= ids(before));
                }
                return ;
            }
            k += 1;
        }
        self.entries.push(ODSCell { id: cell.id.clone(), rgb: cell.rgb });
        proof {
            assert(!has_id(before, cell@.id));
            assert(self@ =~= record(before, cell@));
            lemma_record_keeps_distinct(before, cell@);
        }
    }
}

/// Recording a cell keeps the identifiers distinct, adds the identifier of
/// the cell to those recorded, and adds at most one entry.
pub proof fn lemma_record_keeps_distinct(entries: Seq<CellView>, cell: CellView)
    requires
        ids(entries).no_duplicates(),
    ensures
        ids(record(entries, cell)).no_duplicates(),
        forall|id: Seq<char>|
            has_id(record(entries, cell), id) <==> has_id(entries, id) || id == cell.id,
        entries.len() <= record(entries, cell).len() <= entries.len() + 1,
        forall|k: int|
            0 <= k < record(entries, cell).len() ==> #[trigger] record(entries, cell)[k] == cell
                || (k < entries.len() && record(entries, cell)[k] == entries[k]),
{
    let after = record(entries, cell);
    assert forall|a: int, b: int|
        0 <= a < after.len() && 0 <= b < after.len() && a != b implies ids(after)[a] != ids(
        after,
    )[b] by {
        if has_id(entries, cell.id) {
            assert(ids(entries)[a] != ids(entries)[b]);
        } else {
            if a < entries.len() && b < entries.len() {
                assert(ids(entries)[a] != ids(entries)[b]);
            } else if a < entries.len() {
                assert(entries[a].id != cell.id);
            } else {
                assert(entries[b].id != cell.id);
            }
        }
    }
    assert forall|id: Seq<char>| has_id(after, id) <==> has_id(entries, id) || id
        == cell.id by {
        if has_id(after, id) {
            let k = choose|k: int| 0 <= k < after.len() && (#[trigger] after[k]).id == id;
            if k < entries.len() && id != cell.id {
                assert(entries[k].id == id);
            }
        }
        if has_id(entries, id) {
            let k = choose|k: int| 0 <= k < entries.len() && (#[trigger] entries[k]).id == id;
            assert(after[k].id == id);
        }
        if id == cell.id {
            if has_id(entries, cell.id) {
                let k = choose|k: int|
                    0 <= k < entries.len() && (#[trigger] entries[k]).id == cell.id;
                assert(after[k].id == id);
            } else {
                assert(after[entries.len() as int].id == id);
            }
        }
    }
}

/// Recording the same cell a second time changes nothing.
pub proof fn lemma_record_is_idempotent(entries: Seq<CellView>, cell: CellView)
    ensures
        record(record(entries, cell), cell) == record(entries, cell),
{
    let once = record(entries, cell);
    if has_id(entries, cell.id) {
        let k = choose|k: int| 0 <= k < entries.len() && (#[trigger] entries[k]).id == cell.id;
        assert(once[k].id == cell.id);
    } else {
        assert(once[entries.len() as int].id == cell.id);
    }
    assert(has_id(once, cell.id));
    assert(record(once, cell) =~= once);
}

/// Whether the cell occurs in the sequence.
pub open spec fn has_cell(cells: Seq<CellView>, cell: CellView) -> bool {
    exists|k: int| 0 <= k < cells.len() && #[trigger] cells[k] == cell
}

/// Whether the cell occurs in the grid.
pub open spec fn grid_has_cell(rows: Seq<Seq<CellView>>, cell: CellView) -> bool {
    exists|i: int, j: int| 0 <= i < rows.len() && 0 <= j < rows[i].len() && #[trigger] rows[i][j] == cell
}

/// Recording a row keeps the identifiers distinct, adds the identifiers of
/// the row to those recorded, and adds at most one entry for each cell;
/// every entry afterwards is an entry from before or a cell of the row.
pub proof fn lemma_record_row(entries: Seq<CellView>, row: Seq<CellView>)
    requires
        ids(entries).no_duplicates(),
    ensures
        ids(record_row(entries, row)).no_duplicates(),
        forall|id: Seq<char>|
            has_id(record_row(entries, row), id) <==> has_id(entries, id) || has_id(row, id),
        entries.len() <= record_row(entries, row).len() <= entries.len() + row.len(),
        forall|k: int|
            0 <= k < record_row(entries, row).len() ==> has_cell(
                entries,
                #[trigger] record_row(entries, row)[k],
            ) || has_cell(row, record_row(entries, row)[k]),
    decreases row.len(),
{
    if row.len() > 0 {
        let front = row.drop_last();
        let middle = record_row(entries, front);
        let after = record_row(entries, row);
        lemma_record_row(entries, front);
        lemma_record_keeps_distinct(middle, row.last());
        assert forall|id: Seq<char>| has_id(after, id) <==> has_id(entries, id) || has_id(
            row,
            id,
        ) by {
            if has_id(front, id) {
                let k = choose|k: int| 0 <= k < front.len() && (#[trigger] front[k]).id == id;
                assert(row[k].id == id);
            }
            if has_id(row, id) {
                let k = choose|k: int| 0 <= k < row.len() && (#[trigger] row[k]).id == id;
                if k < front.len() {
                    assert(front[k].id == id);
                }
            }
            if id == row.last().id {
                assert(row[row.len() - 1].id == id);
            }
        }
        assert forall|k: int| 0 <= k < after.len() implies has_cell(entries, #[trigger] after[k])
            || has_cell(row, after[k]) by {
            if after[k] == row.last() {
                assert(row[row.len() - 1] == after[k]);
            } else {
                assert(after[k] == middle[k]);
                if has_cell(front, middle[k]) {
                    let m = choose|m: int| 0 <= m < front.len() && #[trigger] front[m] == middle[k];
                    assert(row[m] == after[k]);
                }
            }
        }
    }
}

/// Recording a grid keeps the identifiers distinct, adds the identifiers of
/// the grid to those recorded, and adds at most one entry for each cell;
/// every entry afterwards is an entry from before or a cell of the grid.
pub proof fn lemma_record_rows(entries: Seq<CellView>, rows: Seq<Seq<CellView>>)
    requires
        ids(entries).no_duplicates(),
    ensures
        ids(record_rows(entries, rows)).no_duplicates(),
        forall|id: Seq<char>|
            has_id(record_rows(entries, rows), id) <==> has_id(entries, id) || grid_has_id(
                rows,
                id,
            ),
        entries.len() <= record_rows(entries, rows).len() <= entries.len() + cell_count(rows),
        forall|k: int|
            0 <= k < record_rows(entries, rows).len() ==> has_cell(
                entries,
                #[trigger] record_rows(entries, rows)[k],
            ) || grid_has_cell(rows, record_rows(entries, rows)[k]),
    decreases rows.len(),
{
    if rows.len() > 0 {
        let front = rows.drop_last();
        let last = rows.last();
        let middle = record_rows(entries, front);
        let after = record_rows(entries, rows);
        lemma_record_rows(entries, front);
        lemma_record_row(middle, last);
        assert forall|id: Seq<char>| has_id(after, id) <==> has_id(entries, id) || grid_has_id(
            rows,
            id,
        ) by {
            if grid_has_id(front, id) {
                let (i, j) = choose|i: int, j: int|
                    0 <= i < front.len() && 0 <= j < front[i].len() && (#[trigger] front[i][j]).id
                        == id;
                assert(rows[i][j].id == id);
            }
            if has_id(last, id) {
                let j = choose|j: int| 0 <= j < last.len() && (#[trigger] last[j]).id == id;
                assert(rows[rows.len() - 1][j].id == id);
            }
            if grid_has_id(rows, id) {
                let (i, j) = choose|i: int, j: int|
                    0 <= i < rows.len() && 0 <= j < rows[i].len() && (#[trigger] rows[i][j]).id
                        == id;
                if i < front.len() {
                    assert(front[i][j].id == id);
                } else {
                    assert(last[j].id == id);
                }
            }
        }
        assert forall|k: int| 0 <= k < after.len() implies has_cell(entries, #[trigger] after[k])
            || grid_has_cell(rows, after[k]) by {
            if has_cell(last, after[k]) {
                let j = choose|j: int| 0 <= j < last.len() && #[trigger] last[j] == after[k];
                assert(rows[rows.len() - 1][j] == after[k]);
            } else {
                assert(has_cell(middle, after[k]));
                let m = choose|m: int| 0 <= m < middle.len() && #[trigger] middle[m] == after[k];
                if grid_has_cell(front, middle[m]) {
                    let (i, j) = choose|i: int, j: int|
                        0 <= i < front.len() && 0 <= j < front[i].len() && #[trigger] front[i][j]
                            == middle[m];
                    assert(rows[i][j] == after[k]);
                }
            }
        }
    }
}

/// The legend of a grid names every identifier of the grid exactly once:
/// it has as many entries as the grid has distinct identifiers, never more
/// than the grid has cells, and every entry is a cell of the grid.
pub proof fn lemma_legend_names_each_identifier_once(rows: Seq<Seq<CellView>>)
    ensures
        ids(legend_of(rows)).no_duplicates(),
        ids(legend_of(rows)).to_set() == grid_ids(rows),
        grid_ids(rows).finite(),
        legend_of(rows).len() == grid_ids(rows).len(),
        legend_of(rows).len() <= cell_count(rows),
        forall|k: int|
            0 <= k < legend_of(rows).len() ==> grid_has_cell(rows, #[trigger] legend_of(rows)[k]),
{
    let legend = legend_of(rows);
    lemma_record_rows(Seq::empty(), rows);
    assert forall|id: Seq<char>| ids(legend).to_set().contains(id) <==> grid_ids(rows).contains(
        id,
    ) by {
        if ids(legend).to_set().contains(id) {
            let k = choose|k: int| 0 <= k < ids(legend).len() && ids(legend)[k] == id;
            assert(legend[k].id == id);
        }
        if has_id(legend, id) {
            let k = choose|k: int| 0 <= k < legend.len() && (#[trigger] legend[k]).id == id;
            assert(ids(legend)[k] == id);
        }
    }
    assert(ids(legend).to_set() =~= grid_ids(rows));
    ids(legend).unique_seq_to_set();
    vstd::seq_lib::seq_to_set_is_finite(ids(legend));
}

/// Recording a cell puts that very cell into the legend and leaves the
/// entries under other identifiers as they are.
pub proof fn lemma_record_overwrites(entries: Seq<CellView>, cell: CellView)
    ensures
        has_cell(record(entries, cell), cell),
        forall|other: CellView|
            has_cell(entries, other) && other.id != cell.id ==> has_cell(
                record(entries, cell),
                other,
            ),
{
    let after = record(entries, cell);
    if has_id(entries, cell.id) {
        let k = choose|k: int| 0 <= k < entries.len() && (#[trigger] entries[k]).id == cell.id;
        assert(after[k] == cell);
    } else {
        assert(after[entries.len() as int] == cell);
    }
    assert forall|other: CellView| has_cell(entries, other) && other.id != cell.id implies has_cell(
        after,
        other,
    ) by {
        let k = choose|k: int| 0 <= k < entries.len() && #[trigger] entries[k] == other;
        assert(after[k] == other);
    }
}

/// Whether no cell of the row to the right of `column` carries the
/// identifier.
pub open spec fn absent_after(row: Seq<CellView>, column: int, id: Seq<char>) -> bool {
    forall|j: int| column < j < row.len() ==> (#[trigger] row[j]).id != id
}

/// Whether no cell of the grid below row `line` carries the identifier.
pub open spec fn absent_below(rows: Seq<Seq<CellView>>, line: int, id: Seq<char>) -> bool {
    forall|i: int, j: int|
        line < i < rows.len() && 0 <= j < rows[i].len() ==> (#[trigger] rows[i][j]).id != id
}

/// After a row has been recorded, an entry whose identifier does not occur
/// in the row is still there, and the last cell of the row under an
/// identifier is the entry under that identifier.
pub proof fn lemma_record_row_keeps_last(entries: Seq<CellView>, row: Seq<CellView>)
    ensures
        forall|other: CellView|
            has_cell(entries, other) && !has_id(row, other.id) ==> has_cell(
                record_row(entries, row),
                other,
            ),
        forall|j: int|
            0 <= j < row.len() && absent_after(row, j, row[j].id) ==> has_cell(
                record_row(entries, row),
                #[trigger] row[j],
            ),
    decreases row.len(),
{
    if row.len() > 0 {
        let front = row.drop_last();
        let last = row.last();
        let middle = record_row(entries, front);
        let after = record_row(entries, row);
        lemma_record_row_keeps_last(entries, front);
        lemma_record_overwrites(middle, last);
        assert forall|other: CellView|
            has_cell(entries, other) && !has_id(row, other.id) implies has_cell(after, other) by {
            assert(row[row.len() - 1].id != other.id);
            if has_id(front, other.id) {
                let k = choose|k: int| 0 <= k < front.len() && (#[trigger] front[k]).id == other.id;
                assert(row[k].id == other.id);
            }
        }
        assert forall|j: int|
            0 <= j < row.len() && absent_after(row, j, row[j].id) implies has_cell(
            after,
            #[trigger] row[j],
        ) by {
            if j < row.len() - 1 {
                assert(row[row.len() - 1].id != row[j].id);
                assert(front[j] == row[j]);
                assert forall|m: int| j < m < front.len() implies (#[trigger] front[m]).id
                    != front[j].id by {
                    assert(row[m].id != row[j].id);
                }
            }
        }
    }
}

/// After a grid has been recorded, the last cell under an identifier, in
/// row-major order, is the entry under that identifier.
pub proof fn lemma_record_rows_keeps_last(entries: Seq<CellView>, rows: Seq<Seq<CellView>>)
    ensures
        forall|i: int, j: int|
            0 <= i < rows.len() && 0 <= j < rows[i].len() && absent_after(
                rows[i],
                j,
                rows[i][j].id,
            ) && absent_below(rows, i, rows[i][j].id) ==> has_cell(
                record_rows(entries, rows),
                #[trigger] rows[i][j],
            ),
    decreases rows.len(),
{
    if rows.len() > 0 {
        let front = rows.drop_last();
        let last = rows.last();
        let middle = record_rows(entries, front);
        let after = record_rows(entries, rows);
        lemma_record_rows_keeps_last(entries, front);
        lemma_record_row_keeps_last(middle, last);
        assert forall|i: int, j: int|
            0 <= i < rows.len() && 0 <= j < rows[i].len() && absent_after(
                rows[i],
                j,
                rows[i][j].id,
            ) && absent_below(rows, i, rows[i][j].id) implies has_cell(
            after,
            #[trigger] rows[i][j],
        ) by {
            let cell = rows[i][j];
            if i < rows.len() - 1 {
                assert(front[i][j] == cell);
                assert forall|a: int, b: int|
                    i < a < front.len() && 0 <= b < front[a].len() implies (
                #[trigger] front[a][b]).id != cell.id by {
                    assert(rows[a][b].id != cell.id);
                }
                assert(absent_below(front, i, cell.id));
                assert(has_cell(middle, cell));
                if has_id(last, cell.id) {
                    let b = choose|b: int| 0 <= b < last.len() && (#[trigger] last[b]).id == cell.id;
                    assert(rows[rows.len() - 1][b].id == cell.id);
                }
            }
        }
    }
}

/// Where an identifier occurs more than once in a grid, the legend shows it
/// in the colour of the last cell that carries it.
pub proof fn lemma_legend_shows_last_color(rows: Seq<Seq<CellView>>, row: int, column: int)
    requires
        0 <= row < rows.len(),
        0 <= column < rows[row].len(),
        absent_after(rows[row], column, rows[row][column].id),
        absent_below(rows, row, rows[row][column].id),
    ensures
        has_cell(legend_of(rows), rows[row][column]),
{
    lemma_record_rows_keeps_last(Seq::empty(), rows);
}

} // verus!
