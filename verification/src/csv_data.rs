//! The in-memory table: a grid of text cells whose dimensions are fixed at
//! load time, with bounds-checked single-cell writes and ragged window
//! extraction.

use vstd::prelude::*;
use crate::custom_error::CSVError;

verus! {

/// The row extent of a table (number of rows), kept beside the grid.
#[derive(Debug, Clone, Copy)]
pub struct Row(pub usize);

/// The column extent of a table (cell count of the first row), kept beside
/// the grid.
#[derive(Debug, Clone, Copy)]
pub struct Column(pub usize);

/// A rectangular table of opaque text cells.
///
/// The declared dimensions are computed once, when the table is built from
/// its rows: the row count, and the cell count of the first row. Mutation
/// only replaces existing cells in place, so the dimensions never change
/// after construction. Rows shorter or longer than the first row are kept
/// as they came; operations bounds-check against the stored grid and fail
/// rather than touch memory outside a row.
#[derive(Debug)]
pub struct CSVData {
    /// The grid itself: one inner vector of cells per row.
    pub data: Vec<Vec<String>>,
    /// The declared dimensions, `(row extent, column extent)`.
    pub dimensions: (Row, Column),
}

impl View for CSVData {
    type V = Seq<Seq<Seq<char>>>;

    open spec fn view(&self) -> Seq<Seq<Seq<char>>> {
        self.data.deep_view()
    }
}

/// The marker text written in place of a deleted cell. It is ordinary cell
/// text to the model; only the display layer reads it as "cleared".
pub open spec fn placeholder() -> Seq<char> {
    seq!['_']
}

impl CSVData {
    /// The declared row count, as recorded at construction.
    pub open spec fn dim_rows(self) -> int {
        self.dimensions.0.0 as int
    }

    /// The declared column count, as recorded at construction.
    pub open spec fn dim_cols(self) -> int {
        self.dimensions.1.0 as int
    }

    /// The declared dimensions agree with the grid: the row count is the
    /// number of rows, and the column count is the cell count of the first
    /// row (zero for an empty table).
    pub open spec fn well_formed(self) -> bool {
        &&& self.dim_rows() == self@.len()
        &&& self.dim_cols() == if self@.len() == 0 { 0int } else { self@[0].len() as int }
    }

    /// Builds a table from already-parsed rows, deriving the declared
    /// dimensions from them.
    pub fn from_rows(data: Vec<Vec<String>>) -> (t: CSVData)
        ensures
            t@ == data.deep_view(),
            t.dim_rows() == data@.len(),
            t.dim_cols() == if data@.len() == 0 { 0int } else { data@[0]@.len() as int },
            t.well_formed(),
    {
        let rows: usize = data.len();
        let cols: usize = if data.len() == 0 { 0 } else { data[0].len() };
        let t = CSVData { data, dimensions: (Row(rows), Column(cols)) };
        proof {
            assert(t@.len() == t.data@.len());
            if t.data@.len() > 0 {
                assert(t@[0] == t.data@[0].deep_view());
                assert(t@[0].len() == t.data@[0]@.len());
            }
        }
        t
    }

    /// The declared dimensions, `(row count, column count)`.
    pub fn dimensions(&self) -> (d: (usize, usize))
        ensures
            d.0 == self.dim_rows(),
            d.1 == self.dim_cols(),
    {
        (self.dimensions.0.0, self.dimensions.1.0)
    }

    /// First cell index of row `r` inside a window starting at
    /// `(start_row, start_col)`: the window clips the first row to start at
    /// `start_col` and every later row starts at its first cell.
    pub open spec fn clip_lo(start_row: int, start_col: int, r: int) -> int {
        if r == start_row { start_col } else { 0 }
    }

    /// One past the last cell index of row `r` inside a window ending at
    /// `(end_row, end_col)`: the window clips the last row to end at
    /// `end_col` and every earlier row runs to the declared column count.
    pub open spec fn clip_hi(self, end_row: int, end_col: int, r: int) -> int {
        if r == end_row { end_col + 1 } else { self.dim_cols() }
    }

    /// Row `r` of the stored grid is long enough for its clipped span in
    /// the window `(start_row, start_col)..(end_row, end_col)`.
    pub open spec fn row_in_bounds(self, start_row: int, start_col: int, end_row: int, end_col: int, r: int) -> bool {
        &&& 0 <= r < self@.len()
        &&& Self::clip_lo(start_row, start_col, r) <= self.clip_hi(end_row, end_col, r)
        &&& self.clip_hi(end_row, end_col, r) <= self@[r].len()
    }

    /// Every row the window touches is long enough for its clipped span.
    pub open spec fn window_ok(self, start_row: int, start_col: int, end_row: int, end_col: int) -> bool {
        forall|r: int| start_row <= r <= end_row ==> self.row_in_bounds(start_row, start_col, end_row, end_col, r)
    }

    /// The rows of the window `(start_row, start_col)..(end_row, end_col)`:
    /// one clipped row slice per table row from `start_row` to `end_row`
    /// inclusive.
    pub open spec fn window_spec(self, start_row: int, start_col: int, end_row: int, end_col: int) -> Seq<Seq<Seq<char>>> {
        Seq::new(
            (end_row - start_row + 1) as nat,
            |i: int| self@[start_row + i].subrange(
                Self::clip_lo(start_row, start_col, start_row + i),
                self.clip_hi(end_row, end_col, start_row + i),
            ),
        )
    }

    /// Extracts the window between the zero-based coordinates
    /// `(start_row, start_col)` and `(end_row, end_col)`, both inclusive:
    /// the first row clipped to begin at `start_col`, the last row clipped
    /// to end at `end_col`, full declared width in between (when the window
    /// is a single row, both clips apply). Fails, defensively, when a
    /// touched row is missing or too short for its span; an empty window
    /// (`start_row > end_row`) yields no rows.
    pub fn paginate(&self, start_row: usize, start_col: usize, end_row: usize, end_col: usize)
        -> (res: Result<Vec<Vec<String>>, CSVError>)
        ensures
            start_row > end_row ==> (res matches Ok(w) && w@.len() == 0),
            start_row <= end_row ==> ((res is Ok) <==> self.window_ok(start_row as int, start_col as int, end_row as int, end_col as int)),
            res matches Ok(w) ==> (start_row > end_row || w.deep_view() == self.window_spec(start_row as int, start_col as int, end_row as int, end_col as int)),
            res matches Err(e) ==> e is ValidationError,
    {
        let ghost sr = start_row as int;
        let ghost sc = start_col as int;
        let ghost er = end_row as int;
        let ghost ec = end_col as int;
        let mut out: Vec<Vec<String>> = Vec::new();
        if start_row > end_row {
            return Ok(out);
        }
        let mut row: usize = start_row;
        while row <= end_row
            invariant
                start_row <= row <= end_row + 1,
                start_row <= end_row,
                sr == start_row as int && sc == start_col as int && er == end_row as int && ec == end_col as int,
                forall|r: int| sr <= r < row ==> self.row_in_bounds(sr, sc, er, ec, r),
                out.deep_view().len() == row - start_row,
                forall|i: int| 0 <= i < out.deep_view().len() ==>
                    #[trigger] out.deep_view()[i] == self@[sr + i].subrange(
                        Self::clip_lo(sr, sc, sr + i),
                        self.clip_hi(er, ec, sr + i),
                    ),
            decreases end_row + 1 - row,
        {
            if row >= self.data.len() {
                proof { assert(!self.row_in_bounds(sr, sc, er, ec, row as int)); }
                return Err(CSVError::ValidationError(String::from_str("window row out of range")));
            }
            let lo: usize = if row == start_row { start_col } else { 0 };
            let rlen: usize = self.data[row].len();
            let hi: usize;
            if row == end_row {
                if end_col >= rlen {
                    proof { assert(!self.row_in_bounds(sr, sc, er, ec, row as int)); }
                    return Err(CSVError::ValidationError(String::from_str("window column out of range")));
                }
                hi = end_col + 1;
            } else {
                if self.dimensions.1.0 > rlen {
                    proof { assert(!self.row_in_bounds(sr, sc, er, ec, row as int)); }
                    return Err(CSVError::ValidationError(String::from_str("window column out of range")));
                }
                hi = self.dimensions.1.0;
            }
            if lo > hi {
                proof { assert(!self.row_in_bounds(sr, sc, er, ec, row as int)); }
                return Err(CSVError::ValidationError(String::from_str("window start is past its end")));
            }
            proof {
                assert(self.data@[row as int].deep_view() == self@[row as int]);
                assert(self.row_in_bounds(sr, sc, er, ec, row as int));
            }
            let ghost prev_deep = out.deep_view();
            let cells = clone_cells(&self.data[row], lo, hi);
            out.push(cells);
            proof {
                assert forall|i: int| 0 <= i < out.deep_view().len() implies
                    #[trigger] out.deep_view()[i] == self@[sr + i].subrange(
                        Self::clip_lo(sr, sc, sr + i),
                        self.clip_hi(er, ec, sr + i),
                    ) by {
                    assert(out.deep_view()[i] == out@[i].deep_view());
                    if i < prev_deep.len() {
                        assert(out@[i].deep_view() == prev_deep[i]);
                    } else {
                        assert(out@[i] == cells);
                        assert(cells.deep_view() == self.data@[row as int].deep_view().subrange(lo as int, hi as int));
                        assert(Self::clip_lo(sr, sc, row as int) == lo as int);
                        assert(self.clip_hi(er, ec, row as int) == hi as int);
                    }
                }
            }
            row += 1;
        }
        proof {
            assert(self.window_ok(sr, sc, er, ec));
            assert(out.deep_view() =~= self.window_spec(sr, sc, er, ec));
        }
        Ok(out)
    }

    /// The table rendered as one text line per row, cells joined with
    /// commas, in row order. Reading an unchanged table again yields the
    /// same lines.
    pub fn display_lines(&self) -> (lines: Vec<String>)
        ensures
            lines@.len() == self@.len(),
            forall|i: int| 0 <= i < self@.len() ==> #[trigger] lines@[i]@ == join_cells(self@[i]),
    {
        let mut lines: Vec<String> = Vec::new();
        let mut i: usize = 0;
        while i < self.data.len()
            invariant
                i <= self.data@.len(),
                self@.len() == self.data@.len(),
                lines@.len() == i,
                forall|k: int| 0 <= k < i ==> #[trigger] lines@[k]@ == join_cells(self@[k]),
            decreases self.data@.len() - i,
        {
            let line = join_row(&self.data[i]);
            proof {
                assert(self.data@[i as int].deep_view() == self@[i as int]);
            }
            lines.push(line);
            i += 1;
        }
        lines
    }

    /// Replaces the cell at the zero-based position `(row, col)` with
    /// `value`. Fails, changing nothing, when the position misses the
    /// stored grid.
    pub fn write_cell(&mut self, row: usize, col: usize, value: String) -> (res: Result<(), CSVError>)
        ensures
            (res is Ok) <==> (row < old(self)@.len() && col < old(self)@[row as int].len()),
            res is Ok ==> final(self)@ == old(self)@.update(
                row as int,
                old(self)@[row as int].update(col as int, value@),
            ),
            res is Err ==> *final(self) == *old(self),
            res matches Err(e) ==> e is ValidationError,
            final(self).dim_rows() == old(self).dim_rows(),
            final(self).dim_cols() == old(self).dim_cols(),
            final(self)@.len() == old(self)@.len(),
            forall|r: int| 0 <= r < old(self)@.len() ==> #[trigger] final(self)@[r].len() == old(self)@[r].len(),
            old(self).well_formed() ==> final(self).well_formed(),
    {
        let ghost v_view = value@;
        let ghost old_grid = self@;
        if row < self.data.len() {
            if col < self.data[row].len() {
                self.data[row][col] = value;
                proof {
                    let new_grid = self@;
                    assert forall|r: int| 0 <= r < new_grid.len() && r != row implies
                        new_grid[r] == old_grid[r] by {
                        assert(self.data@[r] == old(self).data@[r]);
                    }
                    assert(new_grid[row as int] =~= old_grid[row as int].update(col as int, v_view));
                    assert(new_grid =~~= old_grid.update(
                        row as int,
                        old_grid[row as int].update(col as int, v_view),
                    ));
                }
                return Ok(());
            }
        }
        Err(CSVError::ValidationError(String::from_str("cell index out of range")))
    }

    /// Clears the cell at `(row, col)` by writing the placeholder marker.
    pub fn delete_cell(&mut self, row: usize, col: usize) -> (res: Result<(), CSVError>)
        ensures
            (res is Ok) <==> (row < old(self)@.len() && col < old(self)@[row as int].len()),
            res is Ok ==> final(self)@ == old(self)@.update(
                row as int,
                old(self)@[row as int].update(col as int, placeholder()),
            ),
            res is Err ==> *final(self) == *old(self),
            res matches Err(e) ==> e is ValidationError,
            final(self).dim_rows() == old(self).dim_rows(),
            final(self).dim_cols() == old(self).dim_cols(),
            final(self)@.len() == old(self)@.len(),
            forall|r: int| 0 <= r < old(self)@.len() ==> #[trigger] final(self)@[r].len() == old(self)@[r].len(),
            old(self).well_formed() ==> final(self).well_formed(),
    {
        let mark = String::from_str("_");
        proof {
            reveal_strlit("_");
            assert(mark@ =~= placeholder());
        }
        self.write_cell(row, col, mark)
    }

    /// Replaces the cell at `(row, col)` with the given text.
    pub fn modify_cell(&mut self, row: usize, col: usize, new_value: &str) -> (res: Result<(), CSVError>)
        ensures
            (res is Ok) <==> (row < old(self)@.len() && col < old(self)@[row as int].len()),
            res is Ok ==> final(self)@ == old(self)@.update(
                row as int,
                old(self)@[row as int].update(col as int, new_value@),
            ),
            res is Err ==> *final(self) == *old(self),
            res matches Err(e) ==> e is ValidationError,
            final(self).dim_rows() == old(self).dim_rows(),
            final(self).dim_cols() == old(self).dim_cols(),
            final(self)@.len() == old(self)@.len(),
            forall|r: int| 0 <= r < old(self)@.len() ==> #[trigger] final(self)@[r].len() == old(self)@[r].len(),
            old(self).well_formed() ==> final(self).well_formed(),
    {
        self.write_cell(row, col, new_value.to_owned())
    }
}

/// The zero-based coordinate `(r, c)` addresses a cell actually stored in
/// the grid.
pub open spec fn cell_in_grid(grid: Seq<Seq<Seq<char>>>, r: int, c: int) -> bool {
    0 <= r < grid.len() && 0 <= c < grid[r].len()
}

/// The cells of one row joined into a single line, separated by commas.
pub open spec fn join_cells(cells: Seq<Seq<char>>) -> Seq<char>
    decreases cells.len(),
{
    if cells.len() == 0 {
        Seq::empty()
    } else if cells.len() == 1 {
        cells[0]
    } else {
        join_cells(cells.drop_last()) + seq![','] + cells.last()
    }
}

/// A window over the full extent of a non-empty rectangular table returns
/// exactly the table's rows. (A table with no columns, or with a row
/// shorter than the first, has no full-extent window: the clipped spans
/// would leave the grid.)
pub proof fn lemma_full_window_is_table(t: CSVData)
    requires
        t.well_formed(),
        t@.len() > 0,
        t.dim_cols() > 0,
        forall|r: int| 0 <= r < t@.len() ==> #[trigger] t@[r].len() == t.dim_cols(),
    ensures
        t.window_ok(0, 0, t.dim_rows() - 1, t.dim_cols() - 1),
        t.window_spec(0, 0, t.dim_rows() - 1, t.dim_cols() - 1) == t@,
{
    let er = t.dim_rows() - 1;
    let ec = t.dim_cols() - 1;
    assert forall|r: int| 0 <= r <= er implies t.row_in_bounds(0, 0, er, ec, r) by {
        assert(t@[r].len() == t.dim_cols());
    }
    assert forall|i: int| 0 <= i < t@.len() implies t.window_spec(0, 0, er, ec)[i] == t@[i] by {
        assert(t@[i].len() == t.dim_cols());
        assert(t@[i].subrange(CSVData::clip_lo(0, 0, i), t.clip_hi(er, ec, i)) =~= t@[i]);
    }
    assert(t.window_spec(0, 0, er, ec) =~= t@);
}

/// A window whose start and end coincide holds exactly the one cell at
/// that coordinate.
pub proof fn lemma_single_cell_window(t: CSVData, r: int, c: int)
    requires
        0 <= r < t@.len(),
        0 <= c < t@[r].len(),
    ensures
        t.window_ok(r, c, r, c),
        t.window_spec(r, c, r, c) == seq![seq![t@[r][c]]],
{
    assert(t@[r].subrange(c, c + 1) =~= seq![t@[r][c]]);
    assert(t.window_spec(r, c, r, c) =~= seq![seq![t@[r][c]]]);
}

/// Joins the cells of one row with commas.
fn join_row(cells: &Vec<String>) -> (line: String)
    ensures
        line@ == join_cells(cells.deep_view()),
{
    let mut line = String::new();
    let mut j: usize = 0;
    while j < cells.len()
        invariant
            j <= cells@.len(),
            line@ == join_cells(cells.deep_view().take(j as int)),
        decreases cells@.len() - j,
    {
        proof {
            reveal_strlit(",");
        }
        if j > 0 {
            line.append(",");
        }
        line.append(cells[j].as_str());
        proof {
            let dv = cells.deep_view();
            assert(dv[j as int] == cells@[j as int]@);
            assert(dv.take(j + 1).drop_last() =~= dv.take(j as int));
            assert(dv.take(j + 1).last() == dv[j as int]);
            if j == 0 {
                assert(line@ =~= dv.take(1)[0]);
            } else {
                assert(","@ =~= seq![',']);
                assert(line@ =~= join_cells(dv.take(j as int)) + seq![','] + dv[j as int]);
            }
        }
        j += 1;
    }
    proof {
        assert(cells.deep_view().take(cells@.len() as int) =~= cells.deep_view());
    }
    line
}

/// Copies the cells `[lo, hi)` of one row into a fresh vector.
fn clone_cells(row: &Vec<String>, lo: usize, hi: usize) -> (out: Vec<String>)
    requires
        lo <= hi <= row@.len(),
    ensures
        out.deep_view() == row.deep_view().subrange(lo as int, hi as int),
{
    let mut out: Vec<String> = Vec::new();
    let mut j: usize = lo;
    while j < hi
        invariant
            lo <= j <= hi <= row@.len(),
            out.deep_view() == row.deep_view().subrange(lo as int, j as int),
        decreases hi - j,
    {
        let ghost prev_deep = out.deep_view();
        let cell = row[j].clone();
        out.push(cell);
        proof {
            assert(out@.len() == prev_deep.len() + 1);
            assert(out.deep_view().len() == out@.len());
            assert(row.deep_view().subrange(lo as int, j + 1).len() == j + 1 - lo);
            assert forall|i: int| 0 <= i < out.deep_view().len() implies
                #[trigger] out.deep_view()[i] == row.deep_view().subrange(lo as int, j + 1)[i] by {
                assert(out.deep_view()[i] == out@[i].deep_view());
                if i < prev_deep.len() {
                    assert(out@[i].deep_view() == prev_deep[i]);
                } else {
                    assert(out@[i] == cell);
                    assert(cell.deep_view() == row.deep_view()[j as int]);
                }
            }
            assert(out.deep_view() =~= row.deep_view().subrange(lo as int, j + 1));
        }
        j += 1;
    }
    out
}

} // verus!

