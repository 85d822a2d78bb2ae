//! The comma-separated text that the pattern sheets are published as.
use vstd::prelude::*;
use crate::wrappers::string_push;

verus! {

/// Scanner state: finished rows, cells of the current row, the current cell, and
/// whether the scanner is inside double quotes.
#[verifier::ext_equal]
pub struct CsvState {
    pub rows: Seq<Seq<Seq<char>>>,
    pub row: Seq<Seq<char>>,
    pub cell: Seq<char>,
    pub quoted: bool,
}

/// Ends the current cell.
pub open spec fn end_cell(st: CsvState) -> CsvState {
    CsvState { row: st.row.push(st.cell), cell: Seq::empty(), ..st }
}

/// Some cell of `row` holds text.
pub open spec fn row_has_text(row: Seq<Seq<char>>) -> bool {
    exists|k: int| 0 <= k < row.len() && row[k].len() > 0
}

/// Ends the current row; a row of empty cells only is dropped.
pub open spec fn end_row(st: CsvState) -> CsvState {
    let st2 = end_cell(st);
    if row_has_text(st2.row) {
        CsvState { rows: st2.rows.push(st2.row), row: Seq::empty(), ..st2 }
    } else {
        CsvState { row: Seq::empty(), ..st2 }
    }
}

/// Scans `s` from position `i`: a doubled quote inside quotes is one literal quote, a quote
/// toggles quoting, an unquoted comma ends a cell, an unquoted line feed ends a row, an
/// unquoted carriage return is dropped, anything else belongs to the cell.
pub open spec fn csv_scan(s: Seq<char>, i: int, st: CsvState) -> CsvState
    decreases s.len() - i,
{
    if i >= s.len() || i < 0 {
        st
    } else {
        let c = s[i];
        if c == '"' && st.quoted && i + 1 < s.len() && s[i + 1] == '"' {
            csv_scan(s, i + 2, CsvState { cell: st.cell.push('"'), ..st })
        } else if c == '"' {
            csv_scan(s, i + 1, CsvState { quoted: !st.quoted, ..st })
        } else if c == ',' && !st.quoted {
            csv_scan(s, i + 1, end_cell(st))
        } else if c == '\n' && !st.quoted {
            csv_scan(s, i + 1, end_row(st))
        } else if c == '\r' && !st.quoted {
            csv_scan(s, i + 1, st)
        } else {
            csv_scan(s, i + 1, CsvState { cell: st.cell.push(c), ..st })
        }
    }
}

/// The scanner before the first character: nothing read, outside quotes.
pub open spec fn csv_start() -> CsvState {
    CsvState { rows: Seq::empty(), row: Seq::empty(), cell: Seq::empty(), quoted: false }
}

/// The rows of `s`: the scan of the whole text, with the last row ended.
pub open spec fn csv_rows(s: Seq<char>) -> Seq<Seq<Seq<char>>> {
    end_row(csv_scan(s, 0, csv_start())).rows
}

/// Every finished row holds some text.
pub open spec fn rows_have_text(rows: Seq<Seq<Seq<char>>>) -> bool {
    forall|r: int| 0 <= r < rows.len() ==> row_has_text(#[trigger] rows[r])
}

proof fn lemma_scan_keeps_rows_with_text(s: Seq<char>, i: int, st: CsvState)
    requires
        rows_have_text(st.rows),
    ensures
        rows_have_text(csv_scan(s, i, st).rows),
    decreases s.len() - i,
{
    if i >= s.len() || i < 0 {
    } else {
        let c = s[i];
        if c == '"' && st.quoted && i + 1 < s.len() && s[i + 1] == '"' {
            lemma_scan_keeps_rows_with_text(s, i + 2, CsvState { cell: st.cell.push('"'), ..st });
        } else if c == '"' {
            lemma_scan_keeps_rows_with_text(s, i + 1, CsvState { quoted: !st.quoted, ..st });
        } else if c == ',' && !st.quoted {
            lemma_scan_keeps_rows_with_text(s, i + 1, end_cell(st));
        } else if c == '\n' && !st.quoted {
            lemma_end_row_keeps_rows_with_text(st);
            lemma_scan_keeps_rows_with_text(s, i + 1, end_row(st));
        } else if c == '\r' && !st.quoted {
            lemma_scan_keeps_rows_with_text(s, i + 1, st);
        } else {
            lemma_scan_keeps_rows_with_text(s, i + 1, CsvState { cell: st.cell.push(c), ..st });
        }
    }
}

proof fn lemma_end_row_keeps_rows_with_text(st: CsvState)
    requires
        rows_have_text(st.rows),
    ensures
        rows_have_text(end_row(st).rows),
{
    let st2 = end_cell(st);
    if row_has_text(st2.row) {
        let rows = st2.rows.push(st2.row);
        assert forall|r: int| 0 <= r < rows.len() implies row_has_text(#[trigger] rows[r]) by {
            if r < st2.rows.len() {
                assert(rows[r] == st.rows[r]);
            }
        }
    }
}

/// No parsed row consists of empty cells only.
pub proof fn lemma_csv_rows_have_text(s: Seq<char>)
    ensures
        rows_have_text(csv_rows(s)),
{
    lemma_scan_keeps_rows_with_text(s, 0, csv_start());
    lemma_end_row_keeps_rows_with_text(csv_scan(s, 0, csv_start()));
}

/// Exec counterpart of the scanner state.
struct CsvBuilder {
    rows: Vec<Vec<String>>,
    row: Vec<String>,
    cell: String,
    quoted: bool,
}

impl CsvBuilder {
    spec fn state(&self) -> CsvState {
        CsvState { rows: self.rows.deep_view(), row: self.row.deep_view(), cell: self.cell@, quoted: self.quoted }
    }
}

/// Ends the current cell.
fn push_cell(row: &mut Vec<String>, cell: &mut String)
    ensures
        final(row).deep_view() == old(row).deep_view().push(old(cell)@),
        final(cell)@ == Seq::<char>::empty(),
{
    let mut taken = String::new();
    std::mem::swap(&mut taken, cell);
    let ghost before = row.deep_view();
    row.push(taken);
    assert(row.deep_view() =~= before.push(old(cell)@));
}

/// Ends the current row, keeping it only when some cell holds text.
fn push_row(rows: &mut Vec<Vec<String>>, row: &mut Vec<String>, cell: &mut String)
    ensures
        ({
            let st = CsvState { rows: old(rows).deep_view(), row: old(row).deep_view(), cell: old(cell)@, quoted: false };
            let after = end_row(st);
            &&& final(rows).deep_view() == after.rows
            &&& final(row).deep_view() == after.row
            &&& final(cell)@ == after.cell
        }),
{
    push_cell(row, cell);
    let mut any = false;
    let mut k: usize = 0;
    while k < row.len()
        invariant
            k <= row.len(),
            any == exists|j: int| 0 <= j < k && row.deep_view()[j].len() > 0,
        decreases row.len() - k,
    {
        let nonempty = !row[k].as_str().is_empty();
        proof {
            assert(row.deep_view()[k as int] == row@[k as int]@);
        }
        if nonempty {
            any = true;
        }
        k = k + 1;
    }
    let ghost rv = row.deep_view();
    assert(any == row_has_text(rv)) by {
        if any {
            let j = choose|j: int| 0 <= j < k && row.deep_view()[j].len() > 0;
            assert(rv[j].len() > 0);
        }
        if row_has_text(rv) {
            let j = choose|j: int| 0 <= j < rv.len() && rv[j].len() > 0;
            assert(row.deep_view()[j].len() > 0);
        }
    }
    if any {
        let mut taken: Vec<String> = Vec::new();
        std::mem::swap(&mut taken, row);
        let ghost before = rows.deep_view();
        rows.push(taken);
        assert(rows.deep_view() =~= before.push(rv));
    } else {
        row.clear();
        assert(row.deep_view() =~= Seq::<Seq<char>>::empty());
    }
}

/// Splits comma-separated text into rows of cells.
pub fn parse_csv(input: &str) -> (rows: Vec<Vec<String>>)
    ensures
        rows.deep_view() == csv_rows(input@),
        rows_have_text(rows.deep_view()),
{
    let mut chars: Vec<char> = Vec::new();
    for c in it: input.chars()
        invariant
            chars@ == it.seq().take(it.index() as int),
    {
        chars.push(c);
    }
    proof {
        broadcast use vstd::string::group_string_axioms;
    }
    assert(chars@ =~= input@);
    let n = chars.len();
    let mut rows: Vec<Vec<String>> = Vec::new();
    let mut row: Vec<String> = Vec::new();
    let mut cell = String::new();
    let mut quoted = false;
    let mut i: usize = 0;
    assert(rows.deep_view() =~= Seq::<Seq<Seq<char>>>::empty());
    assert(row.deep_view() =~= Seq::<Seq<char>>::empty());
    while i < n
        invariant
            chars@ == input@,
            n == chars@.len(),
            i <= n,
            csv_scan(input@, i as int, CsvState { rows: rows.deep_view(), row: row.deep_view(), cell: cell@, quoted })
                == csv_scan(input@, 0, csv_start()),
        decreases n - i,
    {
        let c = chars[i];
        if c == '"' && quoted && i + 1 < n && chars[i + 1] == '"' {
            string_push(&mut cell, '"');
            i = i + 2;
        } else if c == '"' {
            quoted = !quoted;
            i = i + 1;
        } else if c == ',' && !quoted {
            push_cell(&mut row, &mut cell);
            i = i + 1;
        } else if c == '\n' && !quoted {
            push_row(&mut rows, &mut row, &mut cell);
            i = i + 1;
        } else if c == '\r' && !quoted {
            i = i + 1;
        } else {
            string_push(&mut cell, c);
            i = i + 1;
        }
    }
    push_row(&mut rows, &mut row, &mut cell);
    proof {
        lemma_csv_rows_have_text(input@);
    }
    rows
}

} // verus!
