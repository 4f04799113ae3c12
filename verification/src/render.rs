//! How a table is written out: one line for the columns, one line of rules,
//! and one line for each row.

use crate::column::Column;
use crate::number::{decimal, decimal_chars};
use crate::row::Row;
use crate::text::to_string;
use crate::value::Value;
use vstd::prelude::*;
use vstd::string::StringExecFns;

verus! {

/// The line of the columns: a bar, and for each column its name, its type in
/// angle brackets, and a bar.
pub open spec fn header_text(columns: Seq<Column>) -> Seq<char>
    decreases columns.len(),
{
    if columns.len() == 0 {
        "|"@
    } else {
        header_text(columns.drop_last()) + " "@ + columns.last().name@ + " <"@
            + columns.last().col_type.label() + "> |"@
    }
}

/// The line of rules under `count` columns: a bar, and for each column a rule
/// and a bar.
pub open spec fn spacer_text(count: nat) -> Seq<char>
    decreases count,
{
    if count == 0 {
        "|"@
    } else {
        spacer_text((count - 1) as nat) + "  ---  |"@
    }
}

/// The line of a row: a bar, and for each value its text and a bar.
pub open spec fn row_text(values: Seq<Value>) -> Seq<char>
    decreases values.len(),
{
    if values.len() == 0 {
        "|"@
    } else {
        row_text(values.drop_last()) + " "@ + values.last().text() + " |"@
    }
}

/// The lines of `rows`, in order, each ended by a line feed.
pub open spec fn rows_text(rows: Seq<Row>) -> Seq<char>
    decreases rows.len(),
{
    if rows.len() == 0 {
        Seq::empty()
    } else {
        rows_text(rows.drop_last()) + row_text(rows.last().values@) + "\n"@
    }
}

/// A table written out: the number of rows, the line of the columns, the line
/// of rules, and the lines of the rows.
pub open spec fn table_text(columns: Seq<Column>, rows: Seq<Row>) -> Seq<char> {
    "("@ + decimal(rows.len()) + " rows)\n"@ + header_text(columns) + "\n"@ + spacer_text(
        columns.len(),
    ) + "\n"@ + rows_text(rows)
}

/// Writes the line of the columns.
pub fn header_line(columns: &Vec<Column>) -> (line: String)
    ensures
        line@ == header_text(columns@),
{
    let mut line: String = "|".to_owned();
    let mut i: usize = 0;
    while i < columns.len()
        invariant
            i <= columns.len(),
            line@ == header_text(columns@.take(i as int)),
        decreases columns.len() - i,
    {
        assert(columns@.take(i + 1).drop_last() == columns@.take(i as int));
        line.append(" ");
        line.append(columns[i].name.as_str());
        line.append(" <");
        line.append(columns[i].col_type.name());
        line.append("> |");
        i = i + 1;
    }
    assert(columns@.take(columns.len() as int) == columns@);
    line
}

/// Writes the line of rules under `count` columns.
pub fn spacer_line(count: usize) -> (line: String)
    ensures
        line@ == spacer_text(count as nat),
{
    let mut line: String = "|".to_owned();
    let mut i: usize = 0;
    while i < count
        invariant
            i <= count,
            line@ == spacer_text(i as nat),
        decreases count - i,
    {
        line.append("  ---  |");
        i = i + 1;
    }
    line
}

/// Writes the line of a row.
pub fn row_line(row: &Row) -> (line: String)
    ensures
        line@ == row_text(row.values@),
{
    let mut line: String = "|".to_owned();
    let mut i: usize = 0;
    while i < row.values.len()
        invariant
            i <= row.values.len(),
            line@ == row_text(row.values@.take(i as int)),
        decreases row.values.len() - i,
    {
        assert(row.values@.take(i + 1).drop_last() == row.values@.take(i as int));
        let text = row.values[i].to_string();
        line.append(" ");
        line.append(text.as_str());
        line.append(" |");
        i = i + 1;
    }
    assert(row.values@.take(row.values.len() as int) == row.values@);
    line
}

/// Writes a table out: the number of rows, the line of the columns, the line
/// of rules, and the lines of the rows in the order of `rows`.
pub fn table_lines(columns: &Vec<Column>, rows: &Vec<&Row>) -> (lines: String)
    ensures
        lines@ == table_text(columns@, rows@.unref()),
{
    let ghost listing = rows@.unref();
    let mut body: String = String::new();
    let mut i: usize = 0;
    while i < rows.len()
        invariant
            i <= rows.len(),
            listing == rows@.unref(),
            body@ == rows_text(listing.take(i as int)),
        decreases rows.len() - i,
    {
        assert(listing.take(i + 1).drop_last() == listing.take(i as int));
        let line = row_line(rows[i]);
        body.append(line.as_str());
        body.append("\n");
        i = i + 1;
    }
    assert(listing.take(rows.len() as int) == listing);
    let count = to_string(decimal_chars(rows.len() as u64).as_slice());
    let header = header_line(columns);
    let spacer = spacer_line(columns.len());
    let mut lines: String = "(".to_owned();
    lines.append(count.as_str());
    lines.append(" rows)\n");
    lines.append(header.as_str());
    lines.append("\n");
    lines.append(spacer.as_str());
    lines.append("\n");
    lines.append(body.as_str());
    lines
}

} // verus!
