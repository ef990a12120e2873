//! Coordinate entry: parsing one-based indices from raw text, per-axis
//! bounds validation, and the dialogs that turn a sequence of input lines
//! into validated cell coordinates or windows.
//!
//! Each dialog consumes trimmed input lines one at a time. A line equal to
//! the reserved keyword `menu` aborts the whole command; a line that fails
//! to parse or to validate is dropped and the same axis is asked again;
//! when the lines run out before an axis is answered, the dialog reports
//! an input error.

use vstd::prelude::*;
use crate::csv_data::{cell_in_grid, placeholder, CSVData, Column, Row};
use crate::custom_error::CSVError;

verus! {

/// Whether two pieces of text hold the same characters.
pub fn str_eq(a: &str, b: &str) -> (r: bool)
    ensures
        r == (a@ == b@),
{
    let sa = a.to_owned();
    let sb = b.to_owned();
    sa == sb
}

/// `c` is a decimal digit.
pub open spec fn is_digit(c: char) -> bool {
    '0' as int <= c as int && c as int <= '9' as int
}

/// The numeric value of a decimal digit.
pub open spec fn digit_val(c: char) -> int {
    c as int - '0' as int
}

/// Every character of `s` is a decimal digit.
pub open spec fn all_digits(s: Seq<char>) -> bool {
    forall|i: int| 0 <= i < s.len() ==> is_digit(#[trigger] s[i])
}

/// The value of a string of decimal digits, most significant first.
pub open spec fn digits_val(s: Seq<char>) -> int
    decreases s.len(),
{
    if s.len() == 0 {
        0
    } else {
        digits_val(s.drop_last()) * 10 + digit_val(s.last())
    }
}

/// The digits of a numeral: the whole text, less one optional leading
/// plus sign.
pub open spec fn numeral_body(s: Seq<char>) -> Seq<char> {
    if s.len() > 0 && s[0] == '+' {
        s.skip(1)
    } else {
        s
    }
}

/// `s` is a non-negative decimal numeral: at least one digit, nothing else.
pub open spec fn is_numeral(s: Seq<char>) -> bool {
    numeral_body(s).len() > 0 && all_digits(numeral_body(s))
}

/// The value of a numeral.
pub open spec fn numeral_val(s: Seq<char>) -> int {
    digits_val(numeral_body(s))
}

/// `s` parses as a `usize`: a numeral whose value fits.
pub open spec fn parses_to_usize(s: Seq<char>) -> bool {
    is_numeral(s) && numeral_val(s) <= usize::MAX
}

proof fn lemma_digits_val_nonneg(s: Seq<char>)
    requires
        all_digits(s),
    ensures
        digits_val(s) >= 0,
    decreases s.len(),
{
    if s.len() > 0 {
        assert(all_digits(s.drop_last()));
        lemma_digits_val_nonneg(s.drop_last());
    }
}

proof fn lemma_digits_val_prefix_le(s: Seq<char>, k: int)
    requires
        all_digits(s),
        0 <= k <= s.len(),
    ensures
        digits_val(s.take(k)) <= digits_val(s),
    decreases s.len() - k,
{
    if k == s.len() {
        assert(s.take(k) =~= s);
    } else {
        lemma_digits_val_prefix_le(s, k + 1);
        assert(s.take(k + 1).drop_last() =~= s.take(k));
        assert(all_digits(s.take(k)));
        lemma_digits_val_nonneg(s.take(k));
        assert(digits_val(s.take(k + 1)) == digits_val(s.take(k)) * 10 + digit_val(s.take(k + 1).last()));
    }
}

/// Parses `s` as a non-negative decimal integer: an optional leading plus
/// sign, then one or more digits, whose value must fit in `usize`.
pub fn parse_usize(s: &str) -> (res: Option<usize>)
    ensures
        res matches Some(n) ==> parses_to_usize(s@) && n == numeral_val(s@),
        res is None ==> !parses_to_usize(s@),
{
    let len: usize = s.unicode_len();
    let mut start: usize = 0;
    if len > 0 && s.get_char(0) == '+' {
        start = 1;
    }
    let ghost body = numeral_body(s@);
    proof {
        assert(body =~= s@.subrange(start as int, len as int));
    }
    if start >= len {
        return None;
    }
    let mut i: usize = start;
    let mut val: usize = 0;
    while i < len
        invariant
            start <= i <= len,
            start < len,
            len == s@.len(),
            body == numeral_body(s@),
            body =~= s@.subrange(start as int, len as int),
            all_digits(body.take(i - start)),
            val == digits_val(body.take(i - start)),
        decreases len - i,
    {
        let c = s.get_char(i);
        let cv: u32 = c as u32;
        if cv < 48 || cv > 57 {
            proof {
                assert(body[i - start] == s@[i as int]);
                assert(!is_digit(s@[i as int]));
            }
            return None;
        }
        let d: usize = (cv - 48) as usize;
        proof {
            assert(body[i - start] == s@[i as int]);
            assert(is_digit(s@[i as int]));
            assert(body.take(i + 1 - start).drop_last() =~= body.take(i - start));
            assert(body.take(i + 1 - start).last() == body[i - start]);
        }
        if val > usize::MAX / 10 || (val == usize::MAX / 10 && d > usize::MAX % 10) {
            proof {
                let k = i + 1 - start;
                assert(digits_val(body.take(k)) == val * 10 + d);
                assert(usize::MAX == (usize::MAX as int / 10) * 10 + (usize::MAX as int % 10));
                assert(val * 10 + d > usize::MAX);
                if all_digits(body) {
                    lemma_digits_val_prefix_le(body, k);
                    assert(digits_val(body) > usize::MAX);
                }
            }
            return None;
        }
        proof {
            assert(usize::MAX == (usize::MAX as int / 10) * 10 + (usize::MAX as int % 10));
            assert(val * 10 + d <= usize::MAX);
        }
        val = val * 10 + d;
        i += 1;
    }
    proof {
        assert(body.take(len - start) =~= body);
    }
    Some(val)
}

/// The per-axis bound check applied to a one-based index before it is
/// used, together with a short description of the axis for prompting.
pub trait InputValidator: Sized {
    /// The set of one-based indices the axis accepts.
    spec fn accepts(&self, input: usize) -> bool;

    /// Checks one one-based index against the axis bounds.
    fn validate(&self, input: usize) -> (r: Result<(), CSVError>)
        ensures
            (r is Ok) <==> self.accepts(input),
            r matches Err(e) ==> e is ValidationError,
    ;

    /// A short, human-readable description of the axis bounds.
    fn description(&self) -> (d: String);
}

impl InputValidator for Row {
    /// One-based row indices run from 1 to the table's row extent.
    open spec fn accepts(&self, input: usize) -> bool {
        1 <= input <= self.0
    }

    fn validate(&self, input: usize) -> (r: Result<(), CSVError>) {
        if 1 <= input && input <= self.0 {
            Ok(())
        } else {
            Err(CSVError::ValidationError(String::from_str("Row out of bounds")))
        }
    }

    fn description(&self) -> (d: String) {
        String::from_str("Row numbers range from 1 to the table's row count")
    }
}

impl InputValidator for Column {
    /// One-based column indices run from 1 to the table's column extent.
    open spec fn accepts(&self, input: usize) -> bool {
        1 <= input <= self.0
    }

    fn validate(&self, input: usize) -> (r: Result<(), CSVError>) {
        if 1 <= input && input <= self.0 {
            Ok(())
        } else {
            Err(CSVError::ValidationError(String::from_str("Column out of bounds")))
        }
    }

    fn description(&self) -> (d: String) {
        String::from_str("Column numbers range from 1 to the table's column count")
    }
}

/// What one input line does to an axis dialog.
pub enum AxisStep {
    /// The reserved keyword: abort the whole command.
    Abort,
    /// A numeral the axis accepts, carrying its one-based value.
    Accept(usize),
    /// Anything else: drop the line and ask the same axis again.
    Retry,
}

/// Classifies one trimmed input line for an axis: the reserved `menu`
/// keyword aborts; a numeral the axis accepts is taken; everything else
/// is retried.
pub open spec fn classify_line<V: InputValidator>(v: &V, line: Seq<char>) -> AxisStep {
    if line == "menu"@ {
        AxisStep::Abort
    } else if parses_to_usize(line) && v.accepts(numeral_val(line) as usize) {
        AxisStep::Accept(numeral_val(line) as usize)
    } else {
        AxisStep::Retry
    }
}

/// Presents one trimmed line to an axis: `menu` aborts with `MenuReset`,
/// a non-numeral is an `InputError`, a numeral out of bounds a
/// `ValidationError`, and an accepted numeral is returned.
pub fn retrieve_input<V: InputValidator>(v: &V, line: &str) -> (res: Result<usize, CSVError>)
    ensures
        (res is Ok) <==> classify_line(v, line@) is Accept,
        res matches Ok(n) ==> classify_line(v, line@) == AxisStep::Accept(n),
        (res matches Err(e) && e is MenuReset) <==> line@ == "menu"@,
        (res matches Err(e) && e is InputError) <==> (line@ != "menu"@ && !parses_to_usize(line@)),
        (res matches Err(e) && e is ValidationError) <==> (line@ != "menu"@ && parses_to_usize(line@)
            && !v.accepts(numeral_val(line@) as usize)),
{
    if str_eq(line, "menu") {
        return Err(CSVError::MenuReset);
    }
    match parse_usize(line) {
        None => Err(CSVError::InputError(String::from_str("Invalid input. Please enter a valid number."))),
        Some(n) => match v.validate(n) {
            Ok(()) => Ok(n),
            Err(e) => Err(e),
        },
    }
}

/// How an axis dialog ends when it reads from `lines` starting at `i`:
/// with the first accepted value, with an abort, or with the input
/// running out.
pub enum AxisResult {
    /// An accepted one-based index.
    Accepted(usize),
    /// The menu keyword ended the whole command.
    Aborted,
    /// The input ended before any line was accepted.
    Exhausted,
}

/// The result of one axis dialog run over `lines` from position `i`.
pub open spec fn axis_outcome<V: InputValidator>(v: &V, lines: Seq<Seq<char>>, i: int) -> AxisResult
    decreases lines.len() - i,
{
    if i < 0 || i >= lines.len() {
        AxisResult::Exhausted
    } else {
        match classify_line(v, lines[i]) {
            AxisStep::Abort => AxisResult::Aborted,
            AxisStep::Accept(n) => AxisResult::Accepted(n),
            AxisStep::Retry => axis_outcome(v, lines, i + 1),
        }
    }
}

/// The position just past the lines one axis dialog consumes from `i`.
pub open spec fn axis_end<V: InputValidator>(v: &V, lines: Seq<Seq<char>>, i: int) -> int
    decreases lines.len() - i,
{
    if i < 0 || i >= lines.len() {
        lines.len() as int
    } else if classify_line(v, lines[i]) is Retry {
        axis_end(v, lines, i + 1)
    } else {
        i + 1
    }
}

/// An accepted axis dialog accepted its value.
pub proof fn lemma_axis_accepted<V: InputValidator>(v: &V, lines: Seq<Seq<char>>, i: int)
    ensures
        axis_outcome(v, lines, i) matches AxisResult::Accepted(n) ==> v.accepts(n),
    decreases lines.len() - i,
{
    if 0 <= i < lines.len() {
        if classify_line(v, lines[i]) is Retry {
            lemma_axis_accepted(v, lines, i + 1);
        }
    }
}

/// Runs one axis dialog: reads lines from `*pos`, retrying until a line
/// is accepted, the menu keyword aborts, or the input ends.
pub fn handle_input<V: InputValidator>(v: &V, lines: &Vec<String>, pos: &mut usize) -> (res: Result<usize, CSVError>)
    requires
        *old(pos) <= lines@.len(),
    ensures
        *old(pos) <= *final(pos) <= lines@.len(),
        *final(pos) == axis_end(v, lines.deep_view(), *old(pos) as int),
        (res is Ok) <==> axis_outcome(v, lines.deep_view(), *old(pos) as int) is Accepted,
        res matches Ok(n) ==> axis_outcome(v, lines.deep_view(), *old(pos) as int) == AxisResult::Accepted(n),
        (res matches Err(e) && e is MenuReset) <==> axis_outcome(v, lines.deep_view(), *old(pos) as int) is Aborted,
        (res matches Err(e) && e is InputError) <==> axis_outcome(v, lines.deep_view(), *old(pos) as int) is Exhausted,
        res matches Err(e) ==> (e is MenuReset || e is InputError),
{
    let ghost dv = lines.deep_view();
    let ghost start = *pos as int;
    loop
        invariant
            *pos <= lines@.len(),
            dv == lines.deep_view(),
            start == *old(pos) as int,
            start <= *pos as int,
            axis_outcome(v, dv, start) == axis_outcome(v, dv, *pos as int),
            axis_end(v, dv, start) == axis_end(v, dv, *pos as int),
        decreases lines@.len() - *pos,
    {
        if *pos == lines.len() {
            return Err(CSVError::InputError(String::from_str("input ended before a number was accepted")));
        }
        let ghost before = *pos as int;
        let line = &lines[*pos];
        proof {
            assert(dv[before] == lines@[before]@);
        }
        *pos = *pos + 1;
        match retrieve_input(v, line.as_str()) {
            Ok(n) => {
                return Ok(n);
            },
            Err(e) => {
                if matches!(e, CSVError::MenuReset) {
                    return Err(CSVError::MenuReset);
                }
                proof {
                    assert(classify_line(v, dv[before]) is Retry);
                }
            },
        }
    }
}

/// How a two-axis (row, then column) dialog ends.
pub enum CellResult {
    /// Both axes accepted, carrying the one-based values.
    Got(usize, usize),
    /// The menu keyword ended the whole command.
    Aborted,
    /// The input ended before both axes were answered.
    Exhausted,
}

/// The result of a row-then-column dialog over `lines` from position `i`.
pub open spec fn pair_outcome(row_v: &Row, col_v: &Column, lines: Seq<Seq<char>>, i: int) -> CellResult {
    match axis_outcome(row_v, lines, i) {
        AxisResult::Aborted => CellResult::Aborted,
        AxisResult::Exhausted => CellResult::Exhausted,
        AxisResult::Accepted(r) => match axis_outcome(col_v, lines, axis_end(row_v, lines, i)) {
            AxisResult::Aborted => CellResult::Aborted,
            AxisResult::Exhausted => CellResult::Exhausted,
            AxisResult::Accepted(c) => CellResult::Got(r, c),
        },
    }
}

/// The position just past the lines a row-then-column dialog consumes.
pub open spec fn pair_end(row_v: &Row, col_v: &Column, lines: Seq<Seq<char>>, i: int) -> int {
    match axis_outcome(row_v, lines, i) {
        AxisResult::Accepted(_) => axis_end(col_v, lines, axis_end(row_v, lines, i)),
        _ => axis_end(row_v, lines, i),
    }
}

/// An answered row-then-column dialog accepted both of its values.
pub proof fn lemma_pair_accepted(row_v: &Row, col_v: &Column, lines: Seq<Seq<char>>, i: int)
    ensures
        pair_outcome(row_v, col_v, lines, i) matches CellResult::Got(r, c) ==>
            row_v.accepts(r) && col_v.accepts(c),
{
    lemma_axis_accepted(row_v, lines, i);
    lemma_axis_accepted(col_v, lines, axis_end(row_v, lines, i));
}

/// Asks for a row index, then a column index, each axis retrying on its
/// own until a value passes validation; returns the validated one-based
/// pair.
pub fn get_validated_row_column(row_v: &Row, col_v: &Column, lines: &Vec<String>, pos: &mut usize)
    -> (res: Result<(usize, usize), CSVError>)
    requires
        *old(pos) <= lines@.len(),
    ensures
        *old(pos) <= *final(pos) <= lines@.len(),
        *final(pos) == pair_end(row_v, col_v, lines.deep_view(), *old(pos) as int),
        (res is Ok) <==> pair_outcome(row_v, col_v, lines.deep_view(), *old(pos) as int) is Got,
        res matches Ok(p) ==> pair_outcome(row_v, col_v, lines.deep_view(), *old(pos) as int) == CellResult::Got(p.0, p.1),
        (res matches Err(e) && e is MenuReset) <==> pair_outcome(row_v, col_v, lines.deep_view(), *old(pos) as int) is Aborted,
        (res matches Err(e) && e is InputError) <==> pair_outcome(row_v, col_v, lines.deep_view(), *old(pos) as int) is Exhausted,
        res matches Err(e) ==> (e is MenuReset || e is InputError),
{
    let r = match handle_input(row_v, lines, pos) {
        Ok(n) => n,
        Err(e) => {
            return Err(e);
        },
    };
    let c = match handle_input(col_v, lines, pos) {
        Ok(n) => n,
        Err(e) => {
            return Err(e);
        },
    };
    Ok((r, c))
}

/// Asks for one cell coordinate and converts it to zero-based indices.
pub fn get_single_cell(row_v: &Row, col_v: &Column, lines: &Vec<String>, pos: &mut usize)
    -> (res: Result<(usize, usize), CSVError>)
    requires
        *old(pos) <= lines@.len(),
    ensures
        *old(pos) <= *final(pos) <= lines@.len(),
        *final(pos) == pair_end(row_v, col_v, lines.deep_view(), *old(pos) as int),
        (res is Ok) <==> pair_outcome(row_v, col_v, lines.deep_view(), *old(pos) as int) is Got,
        res matches Ok(p) ==> (pair_outcome(row_v, col_v, lines.deep_view(), *old(pos) as int)
            matches CellResult::Got(r, c) && p.0 == r - 1 && p.1 == c - 1
            && row_v.accepts(r) && col_v.accepts(c)),
        (res matches Err(e) && e is MenuReset) <==> pair_outcome(row_v, col_v, lines.deep_view(), *old(pos) as int) is Aborted,
        (res matches Err(e) && e is InputError) <==> pair_outcome(row_v, col_v, lines.deep_view(), *old(pos) as int) is Exhausted,
        res matches Err(e) ==> (e is MenuReset || e is InputError),
{
    proof {
        lemma_pair_accepted(row_v, col_v, lines.deep_view(), *old(pos) as int);
    }
    match get_validated_row_column(row_v, col_v, lines, pos) {
        Ok((r, c)) => Ok((r - 1, c - 1)),
        Err(e) => Err(e),
    }
}

/// The ordering a window's one-based coordinate pair must satisfy: the
/// start must not lie on a later row than the end, nor to the right of it
/// on the same row.
pub open spec fn window_order_ok(start_row: usize, start_col: usize, end_row: usize, end_col: usize) -> bool {
    start_row <= end_row && (start_row < end_row || start_col <= end_col)
}

/// How a window-selection dialog (two coordinate pairs, then an ordering
/// check) ends.
pub enum RangeResult {
    /// A valid window, as two zero-based `(row, column)` pairs.
    Window((usize, usize), (usize, usize)),
    /// Both pairs were entered but the end precedes the start.
    BadOrder,
    /// The menu keyword ended the whole command.
    Aborted,
    /// The input ended before both pairs were answered.
    Exhausted,
}

/// The result of a window-selection dialog over `lines` from position `i`.
pub open spec fn range_outcome(row_v: &Row, col_v: &Column, lines: Seq<Seq<char>>, i: int) -> RangeResult {
    match pair_outcome(row_v, col_v, lines, i) {
        CellResult::Aborted => RangeResult::Aborted,
        CellResult::Exhausted => RangeResult::Exhausted,
        CellResult::Got(r1, c1) => match pair_outcome(row_v, col_v, lines, pair_end(row_v, col_v, lines, i)) {
            CellResult::Aborted => RangeResult::Aborted,
            CellResult::Exhausted => RangeResult::Exhausted,
            CellResult::Got(r2, c2) => if window_order_ok(r1, c1, r2, c2) {
                RangeResult::Window(((r1 - 1) as usize, (c1 - 1) as usize), ((r2 - 1) as usize, (c2 - 1) as usize))
            } else {
                RangeResult::BadOrder
            },
        },
    }
}

/// The position just past the lines a window-selection dialog consumes.
pub open spec fn range_end(row_v: &Row, col_v: &Column, lines: Seq<Seq<char>>, i: int) -> int {
    match pair_outcome(row_v, col_v, lines, i) {
        CellResult::Got(_, _) => pair_end(row_v, col_v, lines, pair_end(row_v, col_v, lines, i)),
        _ => pair_end(row_v, col_v, lines, i),
    }
}

/// Asks for a window's start and end coordinates, checks the ordering
/// between them, and converts both to zero-based indices. A violated
/// ordering is not retried: the whole command fails at once.
pub fn get_pagination_range(row_v: &Row, col_v: &Column, lines: &Vec<String>, pos: &mut usize)
    -> (res: Result<((usize, usize), (usize, usize)), CSVError>)
    requires
        *old(pos) <= lines@.len(),
    ensures
        *old(pos) <= *final(pos) <= lines@.len(),
        *final(pos) == range_end(row_v, col_v, lines.deep_view(), *old(pos) as int),
        (res is Ok) <==> range_outcome(row_v, col_v, lines.deep_view(), *old(pos) as int) is Window,
        res matches Ok(p) ==> range_outcome(row_v, col_v, lines.deep_view(), *old(pos) as int)
            == RangeResult::Window(p.0, p.1),
        res matches Ok(p) ==> window_order_ok(p.0.0, p.0.1, p.1.0, p.1.1),
        res matches Ok(p) ==> (pair_outcome(row_v, col_v, lines.deep_view(), *old(pos) as int)
            matches CellResult::Got(r1, c1) && p.0.0 == r1 - 1 && p.0.1 == c1 - 1
            && row_v.accepts(r1) && col_v.accepts(c1)),
        res matches Ok(p) ==> (pair_outcome(row_v, col_v, lines.deep_view(),
                pair_end(row_v, col_v, lines.deep_view(), *old(pos) as int))
            matches CellResult::Got(r2, c2) && p.1.0 == r2 - 1 && p.1.1 == c2 - 1
            && row_v.accepts(r2) && col_v.accepts(c2)),
        (res matches Err(e) && e is ValidationError) <==> range_outcome(row_v, col_v, lines.deep_view(), *old(pos) as int) is BadOrder,
        (res matches Err(e) && e is MenuReset) <==> range_outcome(row_v, col_v, lines.deep_view(), *old(pos) as int) is Aborted,
        (res matches Err(e) && e is InputError) <==> range_outcome(row_v, col_v, lines.deep_view(), *old(pos) as int) is Exhausted,
        res matches Err(e) ==> (e is MenuReset || e is InputError || e is ValidationError),
{
    proof {
        lemma_pair_accepted(row_v, col_v, lines.deep_view(), *old(pos) as int);
        lemma_pair_accepted(row_v, col_v, lines.deep_view(),
            pair_end(row_v, col_v, lines.deep_view(), *old(pos) as int));
    }
    let (start_row, start_col) = match get_validated_row_column(row_v, col_v, lines, pos) {
        Ok(p) => p,
        Err(e) => {
            return Err(e);
        },
    };
    let (end_row, end_col) = match get_validated_row_column(row_v, col_v, lines, pos) {
        Ok(p) => p,
        Err(e) => {
            return Err(e);
        },
    };
    match check_window_order(start_row, start_col, end_row, end_col) {
        Ok(()) => Ok(((start_row - 1, start_col - 1), (end_row - 1, end_col - 1))),
        Err(e) => Err(e),
    }
}

/// Checks the ordering between a window's start and end coordinates: the
/// end must not precede the start (same- or later-row, and no earlier
/// column on the same row).
pub fn check_window_order(start_row: usize, start_col: usize, end_row: usize, end_col: usize)
    -> (res: Result<(), CSVError>)
    ensures
        (res is Ok) <==> window_order_ok(start_row, start_col, end_row, end_col),
        res matches Err(e) ==> e is ValidationError,
{
    if start_row <= end_row && (start_row < end_row || start_col <= end_col) {
        Ok(())
    } else {
        Err(CSVError::ValidationError(String::from_str(
            "Invalid range: ensure that end row/column is greater than or equal to start row/column.",
        )))
    }
}

/// Runs the paginate command over scripted input lines: asks for a
/// window's start and end coordinates and extracts that window from the
/// table. The table is never modified.
pub fn paginate_data(data: &CSVData, row_v: &Row, col_v: &Column, lines: &Vec<String>, pos: &mut usize)
    -> (res: Result<Vec<Vec<String>>, CSVError>)
    requires
        *old(pos) <= lines@.len(),
    ensures
        *old(pos) <= *final(pos) <= lines@.len(),
        *final(pos) == range_end(row_v, col_v, lines.deep_view(), *old(pos) as int),
        range_outcome(row_v, col_v, lines.deep_view(), *old(pos) as int) is Aborted ==>
            (res matches Err(e) && e is MenuReset),
        range_outcome(row_v, col_v, lines.deep_view(), *old(pos) as int) is Exhausted ==>
            (res matches Err(e) && e is InputError),
        range_outcome(row_v, col_v, lines.deep_view(), *old(pos) as int) is BadOrder ==>
            (res matches Err(e) && e is ValidationError),
        range_outcome(row_v, col_v, lines.deep_view(), *old(pos) as int) matches RangeResult::Window(s, t) ==> (({
            if data.window_ok(s.0 as int, s.1 as int, t.0 as int, t.1 as int) {
                res matches Ok(w) && w.deep_view() == data.window_spec(s.0 as int, s.1 as int, t.0 as int, t.1 as int)
            } else {
                res matches Err(e) && e is ValidationError
            }
        })),
{
    let (start, end) = match get_pagination_range(row_v, col_v, lines, pos) {
        Ok(p) => p,
        Err(e) => {
            return Err(e);
        },
    };
    data.paginate(start.0, start.1, end.0, end.1)
}

/// Runs the delete-cell command over scripted input lines: asks for one
/// cell coordinate, then for a yes/no confirmation; only a confirmed
/// command writes the placeholder marker into the cell. A declined
/// confirmation aborts with `MenuReset` and changes nothing, as every
/// abort path does.
pub fn delete_cell_in_data(data: &mut CSVData, row_v: &Row, col_v: &Column, lines: &Vec<String>, pos: &mut usize)
    -> (res: Result<(), CSVError>)
    requires
        *old(pos) <= lines@.len(),
    ensures
        *old(pos) <= *final(pos) <= lines@.len(),
        res is Err ==> *final(data) == *old(data),
        final(data).dim_rows() == old(data).dim_rows(),
        final(data).dim_cols() == old(data).dim_cols(),
        old(data).well_formed() ==> final(data).well_formed(),
        pair_outcome(row_v, col_v, lines.deep_view(), *old(pos) as int) is Aborted ==>
            (res matches Err(e) && e is MenuReset
                && *final(pos) == pair_end(row_v, col_v, lines.deep_view(), *old(pos) as int)),
        pair_outcome(row_v, col_v, lines.deep_view(), *old(pos) as int) is Exhausted ==>
            (res matches Err(e) && e is InputError
                && *final(pos) == pair_end(row_v, col_v, lines.deep_view(), *old(pos) as int)),
        pair_outcome(row_v, col_v, lines.deep_view(), *old(pos) as int) matches CellResult::Got(r, c) ==> (({
            let dv = lines.deep_view();
            let j = pair_end(row_v, col_v, dv, *old(pos) as int);
            let r0 = r - 1;
            let c0 = c - 1;
            if !cell_in_grid(old(data)@, r0, c0) {
                res matches Err(e) && e is ValidationError && *final(pos) == j
            } else if j >= dv.len() {
                res matches Err(e) && e is InputError && *final(pos) == j
            } else if is_yes(dv[j]) {
                res is Ok && *final(pos) == j + 1
                    && final(data)@ == old(data)@.update(r0, old(data)@[r0].update(c0, placeholder()))
            } else {
                res matches Err(e) && e is MenuReset && *final(pos) == j + 1
            }
        })),
{
    let ghost dv = lines.deep_view();
    let (row, col) = match get_single_cell(row_v, col_v, lines, pos) {
        Ok(p) => p,
        Err(e) => {
            return Err(e);
        },
    };
    if !(row < data.data.len() && col < data.data[row].len()) {
        proof {
            assert(data@.len() == data.data@.len());
            if row < data.data@.len() {
                assert(data@[row as int] == data.data@[row as int].deep_view());
                assert(data@[row as int].len() == data.data@[row as int]@.len());
            }
        }
        return Err(CSVError::ValidationError(String::from_str("cell index out of range")));
    }
    proof {
        assert(data@[row as int] == data.data@[row as int].deep_view());
        assert(data@[row as int].len() == data.data@[row as int]@.len());
        assert(cell_in_grid(data@, row as int, col as int));
    }
    if *pos == lines.len() {
        return Err(CSVError::InputError(String::from_str("input ended before confirmation")));
    }
    let reply = &lines[*pos];
    proof {
        assert(dv[*pos as int] == lines@[*pos as int]@);
    }
    *pos = *pos + 1;
    if confirm_action(reply.as_str()) {
        data.delete_cell(row, col)
    } else {
        Err(CSVError::MenuReset)
    }
}

/// Runs the modify-cell command over scripted input lines: asks for one
/// cell coordinate, then for a yes/no confirmation, then for the new cell
/// text; only a confirmed command writes. A declined confirmation aborts
/// with `MenuReset` and changes nothing, as every abort path does.
pub fn modify_cell_in_data(data: &mut CSVData, row_v: &Row, col_v: &Column, lines: &Vec<String>, pos: &mut usize)
    -> (res: Result<(), CSVError>)
    requires
        *old(pos) <= lines@.len(),
    ensures
        *old(pos) <= *final(pos) <= lines@.len(),
        res is Err ==> *final(data) == *old(data),
        final(data).dim_rows() == old(data).dim_rows(),
        final(data).dim_cols() == old(data).dim_cols(),
        old(data).well_formed() ==> final(data).well_formed(),
        pair_outcome(row_v, col_v, lines.deep_view(), *old(pos) as int) is Aborted ==>
            (res matches Err(e) && e is MenuReset
                && *final(pos) == pair_end(row_v, col_v, lines.deep_view(), *old(pos) as int)),
        pair_outcome(row_v, col_v, lines.deep_view(), *old(pos) as int) is Exhausted ==>
            (res matches Err(e) && e is InputError
                && *final(pos) == pair_end(row_v, col_v, lines.deep_view(), *old(pos) as int)),
        pair_outcome(row_v, col_v, lines.deep_view(), *old(pos) as int) matches CellResult::Got(r, c) ==> (({
            let dv = lines.deep_view();
            let j = pair_end(row_v, col_v, dv, *old(pos) as int);
            let r0 = r - 1;
            let c0 = c - 1;
            if !cell_in_grid(old(data)@, r0, c0) {
                res matches Err(e) && e is ValidationError && *final(pos) == j
            } else if j >= dv.len() {
                res matches Err(e) && e is InputError && *final(pos) == j
            } else if !is_yes(dv[j]) {
                res matches Err(e) && e is MenuReset && *final(pos) == j + 1
            } else if j + 1 >= dv.len() {
                res matches Err(e) && e is InputError && *final(pos) == j + 1
            } else {
                res is Ok && *final(pos) == j + 2
                    && final(data)@ == old(data)@.update(r0, old(data)@[r0].update(c0, dv[j + 1]))
            }
        })),
{
    let ghost dv = lines.deep_view();
    let (row, col) = match get_single_cell(row_v, col_v, lines, pos) {
        Ok(p) => p,
        Err(e) => {
            return Err(e);
        },
    };
    if !(row < data.data.len() && col < data.data[row].len()) {
        proof {
            assert(data@.len() == data.data@.len());
            if row < data.data@.len() {
                assert(data@[row as int] == data.data@[row as int].deep_view());
                assert(data@[row as int].len() == data.data@[row as int]@.len());
            }
        }
        return Err(CSVError::ValidationError(String::from_str("cell index out of range")));
    }
    proof {
        assert(data@[row as int] == data.data@[row as int].deep_view());
        assert(data@[row as int].len() == data.data@[row as int]@.len());
        assert(cell_in_grid(data@, row as int, col as int));
    }
    if *pos == lines.len() {
        return Err(CSVError::InputError(String::from_str("input ended before confirmation")));
    }
    let reply = &lines[*pos];
    proof {
        assert(dv[*pos as int] == lines@[*pos as int]@);
    }
    *pos = *pos + 1;
    if !confirm_action(reply.as_str()) {
        return Err(CSVError::MenuReset);
    }
    if *pos == lines.len() {
        return Err(CSVError::InputError(String::from_str("input ended before the new value")));
    }
    let value = &lines[*pos];
    proof {
        assert(dv[*pos as int] == lines@[*pos as int]@);
    }
    *pos = *pos + 1;
    data.modify_cell(row, col, value.as_str())
}

/// A coordinate validated against the live dimensions of a well-formed
/// rectangular table addresses a stored cell: the defensive bounds checks
/// of the cell operations cannot fail for it.
pub proof fn lemma_validated_cell_in_grid(t: CSVData, row_v: Row, col_v: Column, r: usize, c: usize)
    requires
        t.well_formed(),
        forall|k: int| 0 <= k < t@.len() ==> #[trigger] t@[k].len() == t.dim_cols(),
        row_v.0 == t.dim_rows(),
        col_v.0 == t.dim_cols(),
        row_v.accepts(r),
        col_v.accepts(c),
    ensures
        cell_in_grid(t@, r - 1, c - 1),
{
    assert(t@[r - 1].len() == t.dim_cols());
}

/// A window whose two coordinates are validated against the live
/// dimensions of a well-formed rectangular table, and correctly ordered,
/// lies inside the table: extracting it cannot fail.
pub proof fn lemma_validated_window_in_bounds(
    t: CSVData,
    row_v: Row,
    col_v: Column,
    start_row: usize,
    start_col: usize,
    end_row: usize,
    end_col: usize,
)
    requires
        t.well_formed(),
        forall|k: int| 0 <= k < t@.len() ==> #[trigger] t@[k].len() == t.dim_cols(),
        row_v.0 == t.dim_rows(),
        col_v.0 == t.dim_cols(),
        row_v.accepts(start_row),
        col_v.accepts(start_col),
        row_v.accepts(end_row),
        col_v.accepts(end_col),
        window_order_ok(start_row, start_col, end_row, end_col),
    ensures
        t.window_ok(start_row - 1, start_col - 1, end_row - 1, end_col - 1),
{
    let sr = start_row - 1;
    let sc = start_col - 1;
    let er = end_row - 1;
    let ec = end_col - 1;
    assert forall|k: int| sr <= k <= er implies t.row_in_bounds(sr, sc, er, ec, k) by {
        assert(t@[k].len() == t.dim_cols());
    }
}

/// Whether a confirmation reply means yes: exactly the letter `y`, in
/// either case.
pub open spec fn is_yes(line: Seq<char>) -> bool {
    line == "y"@ || line == "Y"@
}

/// Reads a yes/no confirmation from one trimmed line.
pub fn confirm_action(line: &str) -> (r: bool)
    ensures
        r == is_yes(line@),
{
    str_eq(line, "y") || str_eq(line, "Y")
}

} // verus!
