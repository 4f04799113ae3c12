//! The two statements of the interpreter: listing the rows of a table, and
//! inserting a row into a table.

use crate::database::Database;
use crate::memory::MemoryStorage;
use crate::number::{decimal, decimal_chars, integer_of, is_float_literal, parse_integer};
use crate::render::{table_lines, table_text};
use crate::row::Row;
use crate::storage::is_listing;
use crate::table::{conforms, Table};
use crate::text::{
    after_first, pieces, same_text, split, split_after_first, split_words, starts_with, texts,
    to_chars, to_string, to_uppercase, trim, trim_end_matches, trim_start_matches, trimmed,
    uppercase_text, without_leading, without_trailing, words, CharClass,
};
use crate::value::{Float, Value, ValueView};
use vstd::prelude::*;
use vstd::string::StringExecFns;

verus! {

/// The reply that names a table which the database does not hold.
pub open spec fn not_found_text(name: Seq<char>) -> Seq<char> {
    "Table '"@ + name + "' not found\n"@
}

/// The reply to a selection. `line` is the statement without the whitespace
/// at its ends, `upper` its upper-case form, and `listing` the rows of the
/// table that it names, in the order in which the storage hands them out.
///
/// A statement that does not begin with `SELECT` in any case is malformed;
/// one of fewer than four words gets the expected form; one whose third word
/// is not `FROM` lacks the clause; one whose fourth word names no table gets
/// the name back. Any other gets the table written out. The keyword `FROM`
/// counts in upper case only, unlike `SELECT`; the second word and what
/// follows the fourth are not read.
pub open spec fn select_reply(
    tables: Map<Seq<char>, Table<MemoryStorage>>,
    line: Seq<char>,
    upper: Seq<char>,
    listing: Seq<Row>,
) -> Seq<char> {
    let parts = words(line, CharClass::Whitespace);
    if !"SELECT"@.is_prefix_of(upper) {
        "Malformed SELECT command\n"@
    } else if parts.len() < 4 {
        "Expected syntax: SELECT * FROM <table>\n"@
    } else if parts[2] != "FROM"@ {
        "Missing FROM clause\n"@
    } else if !tables.contains_key(parts[3]) {
        not_found_text(parts[3])
    } else {
        table_text(tables[parts[3]].schema(), listing)
    }
}

/// The table that a selection lists, if it gets that far.
pub open spec fn select_target(
    tables: Map<Seq<char>, Table<MemoryStorage>>,
    line: Seq<char>,
    upper: Seq<char>,
) -> Option<Seq<char>> {
    let parts = words(line, CharClass::Whitespace);
    if "SELECT"@.is_prefix_of(upper) && parts.len() >= 4 && parts[2] == "FROM"@
        && tables.contains_key(parts[3]) {
        Some(parts[3])
    } else {
        None
    }
}

/// Whether `reply` answers the selection `line` on `tables`: it is the reply
/// for some order of the rows of the table that the statement lists.
pub open spec fn answers_select(
    tables: Map<Seq<char>, Table<MemoryStorage>>,
    line: Seq<char>,
    upper: Seq<char>,
    reply: Seq<char>,
) -> bool {
    match select_target(tables, line, upper) {
        Some(name) => exists|listing: Seq<Row>|
            #![trigger select_reply(tables, line, upper, listing)]
            is_listing(tables[name].state().rows, listing) && reply == select_reply(
                tables,
                line,
                upper,
                listing,
            ),
        None => reply == select_reply(tables, line, upper, Seq::empty()),
    }
}

/// Answers the selection `line`, a statement without whitespace at its ends,
/// whose upper-case form is `upper`. The database stays as it is.
pub fn select_statement(db: &mut Database, line: &[char], upper: &[char]) -> (reply: String)
    requires
        old(db).inv(),
    ensures
        final(db).inv(),
        final(db)@ == old(db)@,
        final(db).names() == old(db).names(),
        answers_select(old(db)@, line@, upper@, reply@),
{
    let keyword = to_chars("SELECT");
    if !starts_with(upper, keyword.as_slice()) {
        return "Malformed SELECT command\n".to_owned();
    }
    let parts = split_words(line, CharClass::Whitespace);
    if parts.len() < 4 {
        return "Expected syntax: SELECT * FROM <table>\n".to_owned();
    }
    let from = to_chars("FROM");
    if !same_text(parts[2], from.as_slice()) {
        return "Missing FROM clause\n".to_owned();
    }
    let table_name = to_string(parts[3]);
    proof {
        db.lemma_inv();
    }
    match db.get_table(table_name.as_str()) {
        None => {
            let mut reply: String = "Table '".to_owned();
            reply.append(table_name.as_str());
            reply.append("' not found\n");
            reply
        },
        Some(table) => {
            let rows = table.iter();
            let reply = table_lines(table.columns(), &rows);
            assert(reply@ == select_reply(old(db)@, line@, upper@, rows@.unref()));
            reply
        },
    }
}

/// Answers the selection `input`: the rows of the table that it names,
/// written out, or the reason why it names none. The database stays as it is.
pub fn handle_select(db: &mut Database, input: &str) -> (reply: String)
    requires
        old(db).inv(),
    ensures
        final(db).inv(),
        final(db)@ == old(db)@,
        final(db).names() == old(db).names(),
        answers_select(old(db)@, trimmed(input@), uppercase_text(trimmed(input@)), reply@),
{
    let chars = to_chars(input);
    let line = trim(chars.as_slice());
    let upper = to_chars(to_uppercase(to_string(line).as_str()).as_str());
    select_statement(db, line, upper.as_slice())
}

/// The value that a literal of an insertion stands for: an integer where the
/// literal writes one, else a floating-point number where it is a
/// floating-point literal, else the literal itself as text.
pub open spec fn inferred(literal: Seq<char>) -> ValueView {
    match integer_of(literal) {
        Some(i) => ValueView::Int(i),
        None => if is_float_literal(literal) {
            ValueView::Float(literal)
        } else {
            ValueView::Text(literal)
        },
    }
}

/// The list of values of an insertion: what stands between the first `VALUES`
/// of `line` and the next, without the whitespace at its ends, the opening
/// parentheses at its front and the closing ones at its back. It is empty
/// where `line` has no `VALUES`.
pub open spec fn value_list(line: Seq<char>) -> Seq<char> {
    let after = match after_first(line, "VALUES"@) {
        Some(text) => text,
        None => Seq::empty(),
    };
    without_trailing(
        without_leading(trimmed(after), CharClass::Only('(')),
        CharClass::Only(')'),
    )
}

/// The literals of a list of values: its pieces between commas, each without
/// the whitespace at its ends.
pub open spec fn literals(list: Seq<char>) -> Seq<Seq<char>> {
    pieces(list, CharClass::Only(',')).map_values(|piece: Seq<char>| trimmed(piece))
}

/// The values that a list of values stands for.
pub open spec fn inferred_values(list: Seq<char>) -> Seq<ValueView> {
    literals(list).map_values(|literal: Seq<char>| inferred(literal))
}

/// What an insertion comes to before a row is stored.
pub enum InsertPlan {
    /// The statement is turned down with this reply.
    Report(Seq<char>),
    /// These values are offered to this table.
    Offer(Seq<char>, Seq<ValueView>),
}

/// What the insertion `line` comes to, where `upper` is its upper-case form.
///
/// A statement that does not begin with `INSERT INTO` in any case is
/// malformed; one of fewer than four words gets the expected form; one whose
/// third word names no table gets the name back; one whose list of values is
/// empty is told so. Any other offers the values of its list to the table.
pub open spec fn insert_plan(
    tables: Map<Seq<char>, Table<MemoryStorage>>,
    line: Seq<char>,
    upper: Seq<char>,
) -> InsertPlan {
    let parts = words(line, CharClass::Whitespace);
    if !"INSERT INTO"@.is_prefix_of(upper) {
        InsertPlan::Report("Malformed INSERT command\n"@)
    } else if parts.len() < 4 {
        InsertPlan::Report("Expected syntax: INSERT INTO <table> VALUES (...)\n"@)
    } else if !tables.contains_key(parts[2]) {
        InsertPlan::Report(not_found_text(parts[2]))
    } else if value_list(line).len() == 0 {
        InsertPlan::Report("No values provided\n"@)
    } else {
        InsertPlan::Offer(parts[2], inferred_values(value_list(line)))
    }
}

/// The reply to a row that was stored under `id`.
pub open spec fn inserted_text(id: nat) -> Seq<char> {
    "Inserted row with id "@ + decimal(id) + "\n"@
}

/// Whether `after` and `reply` are what offering `row` to the table `name`
/// of `before` leads to: a row that fits the schema is stored and its
/// identifier reported; any other is turned down, and nothing changes.
pub open spec fn offers(
    before: Map<Seq<char>, Table<MemoryStorage>>,
    after: Map<Seq<char>, Table<MemoryStorage>>,
    name: Seq<char>,
    row: Row,
    reply: Seq<char>,
) -> bool {
    if conforms(before[name].schema(), row.values@) {
        &&& after == before.insert(name, after[name])
        &&& after[name].schema() == before[name].schema()
        &&& after[name].state() == before[name].state().insert(row)
        &&& reply == inserted_text(before[name].state().next_id as nat)
    } else {
        &&& after == before
        &&& reply == "Insert failed: type mismatch or column count mismatch\n"@
    }
}

/// Whether `after` and `reply` are what the insertion `line` makes of
/// `before`.
pub open spec fn answers_insert(
    before: Map<Seq<char>, Table<MemoryStorage>>,
    after: Map<Seq<char>, Table<MemoryStorage>>,
    line: Seq<char>,
    upper: Seq<char>,
    reply: Seq<char>,
) -> bool {
    match insert_plan(before, line, upper) {
        InsertPlan::Report(text) => after == before && reply == text,
        InsertPlan::Offer(name, values) => exists|row: Row|
            #![trigger row@]
            row@ == values && offers(before, after, name, row, reply),
    }
}

/// Reads a literal of an insertion: as an integer where it writes one, else
/// as a floating-point number where it is a floating-point literal, else as
/// text. No literal is read as a truth value or as a point in time.
pub fn eagerly_convert_to_value(literal: &[char]) -> (value: Value)
    ensures
        value@ == inferred(literal@),
{
    match parse_integer(literal) {
        Some(i) => Value::Int(i),
        None => match Float::from_chars(literal) {
            Some(float) => Value::Float(float),
            None => Value::Text(to_string(literal)),
        },
    }
}

/// Reads the values of a list of values.
pub fn read_values(list: &[char]) -> (values: Vec<Value>)
    ensures
        values@.map_values(|value: Value| value@) == inferred_values(list@),
{
    let parts = split(list, CharClass::Only(','));
    let mut values: Vec<Value> = Vec::new();
    let mut i: usize = 0;
    while i < parts.len()
        invariant
            i <= parts.len(),
            texts(parts@) == pieces(list@, CharClass::Only(',')),
            values@.len() == i,
            forall|k: int| 0 <= k < i ==> (#[trigger] values@[k])@ == inferred(trimmed(parts@[k]@)),
        decreases parts.len() - i,
    {
        let literal = trim(parts[i]);
        values.push(eagerly_convert_to_value(literal));
        i = i + 1;
    }
    assert(values@.map_values(|value: Value| value@) =~= inferred_values(list@)) by {
        assert forall|k: int| 0 <= k < parts@.len() implies #[trigger] literals(list@)[k]
            == trimmed(parts@[k]@) by {
            assert(texts(parts@)[k] == parts@[k]@);
        }
    }
    values
}

/// Carries out the insertion `line`, a statement without whitespace at its
/// ends, whose upper-case form is `upper`.
pub fn insert_statement(db: &mut Database, line: &[char], upper: &[char]) -> (reply: String)
    requires
        old(db).inv(),
        old(db).has_room(),
    ensures
        final(db).inv(),
        final(db).names() == old(db).names(),
        answers_insert(old(db)@, final(db)@, line@, upper@, reply@),
{
    let keyword = to_chars("INSERT INTO");
    if !starts_with(upper, keyword.as_slice()) {
        return "Malformed INSERT command\n".to_owned();
    }
    let parts = split_words(line, CharClass::Whitespace);
    if parts.len() < 4 {
        return "Expected syntax: INSERT INTO <table> VALUES (...)\n".to_owned();
    }
    let table_name = to_string(parts[2]);
    let marker = to_chars("VALUES");
    let after = match split_after_first(line, marker.as_slice()) {
        Some(text) => text,
        None => vstd::slice::slice_subrange(line, 0, 0),
    };
    let list = trim_end_matches(
        trim_start_matches(trim(after), CharClass::Only('(')),
        CharClass::Only(')'),
    );
    assert(list@ == value_list(line@));
    proof {
        db.lemma_inv();
    }
    match db.get_table(table_name.as_str()) {
        None => {
            let mut reply: String = "Table '".to_owned();
            reply.append(table_name.as_str());
            reply.append("' not found\n");
            reply
        },
        Some(table) => {
            if list.len() == 0 {
                assert(final(db)@ =~= old(db)@);
                return "No values provided\n".to_owned();
            }
            let values = read_values(list);
            let ghost row = Row { values };
            assert(row@ == inferred_values(value_list(line@)));
            match table.insert(values) {
                Some(id) => {
                    let digits = decimal_chars(id);
                    let mut reply: String = "Inserted row with id ".to_owned();
                    reply.append(to_string(digits.as_slice()).as_str());
                    reply.append("\n");
                    reply
                },
                None => {
                    assert(final(db)@ =~= old(db)@);
                    "Insert failed: type mismatch or column count mismatch\n".to_owned()
                },
            }
        },
    }
}

/// Carries out the insertion `input`: offers the values of its list to the
/// table that it names, or says why it does not.
pub fn handle_insert(db: &mut Database, input: &str) -> (reply: String)
    requires
        old(db).inv(),
        old(db).has_room(),
    ensures
        final(db).inv(),
        final(db).names() == old(db).names(),
        answers_insert(
            old(db)@,
            final(db)@,
            trimmed(input@),
            uppercase_text(trimmed(input@)),
            reply@,
        ),
{
    let chars = to_chars(input);
    let line = trim(chars.as_slice());
    let upper = to_chars(to_uppercase(to_string(line).as_str()).as_str());
    insert_statement(db, line, upper.as_slice())
}

} // verus!
