//! The command interpreter: it takes one line at a time, tells directives,
//! selections and insertions apart, carries them out on its database, and
//! hands back what is to be written.

use crate::database::Database;
use crate::handler::{
    answers_insert, answers_select, insert_statement, select_statement,
};
use crate::memory::MemoryStorage;
use crate::render::{header_line, header_text};
use crate::table::Table;
use crate::text::{
    same_text, split_words, starts_with, texts, to_chars, to_string, to_uppercase, trim, trimmed,
    uppercase_text, words, CharClass,
};
use vstd::prelude::*;
use vstd::string::StringExecFns;

verus! {

/// What kind of line the interpreter was given.
#[derive(Clone, Copy, Debug, PartialEq, Eq, Structural)]
pub enum LineKind {
    /// The directive that ends the session.
    Exit,
    /// Any other directive.
    Directive,
    /// A selection.
    Select,
    /// An insertion.
    Insert,
    /// Anything else; the interpreter passes over it.
    Other,
}

/// What a line led to.
#[derive(Debug, PartialEq, Eq)]
pub enum Outcome {
    /// The session is over.
    Exit,
    /// This text is to be written.
    Reply(String),
    /// The line was passed over; nothing is to be written.
    Ignored,
}

/// The kind of `line`, a line without whitespace at its ends whose upper-case
/// form is `upper`: `.exit` ends the session; any other line that begins with
/// a point is a directive; a line that begins with `SELECT` in any case is a
/// selection, one that begins with `INSERT INTO` in any case an insertion.
pub open spec fn line_kind(line: Seq<char>, upper: Seq<char>) -> LineKind {
    if line == ".exit"@ {
        LineKind::Exit
    } else if "."@.is_prefix_of(line) {
        LineKind::Directive
    } else if "SELECT"@.is_prefix_of(upper) {
        LineKind::Select
    } else if "INSERT INTO"@.is_prefix_of(upper) {
        LineKind::Insert
    } else {
        LineKind::Other
    }
}

/// The names of `names`, each after a space.
pub open spec fn names_text(names: Seq<Seq<char>>) -> Seq<char>
    decreases names.len(),
{
    if names.len() == 0 {
        Seq::empty()
    } else {
        names_text(names.drop_last()) + " "@ + names.last()
    }
}

/// The reply to the directive `line`, a line without whitespace at its ends.
/// Its first word is the command; `.schema` takes the name of a table as its
/// second word.
pub open spec fn directive_reply(
    tables: Map<Seq<char>, Table<MemoryStorage>>,
    names: Seq<Seq<char>>,
    line: Seq<char>,
) -> Seq<char> {
    let parts = words(line, CharClass::AsciiWhitespace);
    let command = if parts.len() > 0 {
        parts[0]
    } else {
        Seq::empty()
    };
    if command == ".help"@ {
        "Available commands: .help, .exit, .tables, .backend, .schema\n"@
    } else if command == ".tables"@ {
        "Active Tables: "@ + names_text(names) + "\n"@
    } else if command == ".backend"@ {
        "Currently using in-memory storage\n"@
    } else if command == ".schema"@ {
        if parts.len() < 2 {
            "Expected format: .schema {table}\n"@
        } else if !tables.contains_key(parts[1]) {
            "Table ("@ + parts[1] + ") not found\n"@
        } else {
            header_text(tables[parts[1]].schema()) + "\n"@
        }
    } else {
        "Unknown command, type .help\n"@
    }
}

/// Tells what kind of line `line` is, where `upper` is its upper-case form.
pub fn classify(line: &[char], upper: &[char]) -> (kind: LineKind)
    ensures
        kind == line_kind(line@, upper@),
{
    let exit = to_chars(".exit");
    let point = to_chars(".");
    let select = to_chars("SELECT");
    let insert = to_chars("INSERT INTO");
    if same_text(line, exit.as_slice()) {
        LineKind::Exit
    } else if starts_with(line, point.as_slice()) {
        LineKind::Directive
    } else if starts_with(upper, select.as_slice()) {
        LineKind::Select
    } else if starts_with(upper, insert.as_slice()) {
        LineKind::Insert
    } else {
        LineKind::Other
    }
}

/// The command interpreter over its database.
pub struct Shell {
    db: Database,
}

impl View for Shell {
    type V = Database;

    /// The database of the interpreter.
    closed spec fn view(&self) -> Database {
        self.db
    }
}

impl Shell {
    /// Whether the interpreter is in order: its database is.
    pub open spec fn inv(&self) -> bool {
        self@.inv()
    }

    /// An interpreter over `db`.
    pub fn new(db: Database) -> (shell: Shell)
        requires
            db.inv(),
        ensures
            shell@ == db,
            shell.inv(),
    {
        Shell { db }
    }

    /// The database of the interpreter.
    pub fn database(&self) -> (db: &Database)
        ensures
            *db == self@,
    {
        &self.db
    }

    /// Gives the database back and ends the interpreter.
    pub fn into_database(self) -> (db: Database)
        ensures
            db == self@,
    {
        self.db
    }

    /// Carries out the directive `line`, a line without whitespace at its
    /// ends.
    fn directive(&mut self, line: &[char]) -> (reply: String)
        requires
            old(self).inv(),
        ensures
            final(self).inv(),
            final(self)@@ == old(self)@@,
            final(self)@.names() == old(self)@.names(),
            reply@ == directive_reply(old(self)@@, old(self)@.names(), line@),
    {
        let parts = split_words(line, CharClass::AsciiWhitespace);
        let help = to_chars(".help");
        let tables = to_chars(".tables");
        let backend = to_chars(".backend");
        let schema = to_chars(".schema");
        let nothing: Vec<char> = Vec::new();
        let command: &[char] = if parts.len() > 0 {
            parts[0]
        } else {
            nothing.as_slice()
        };
        assert(command@ == if texts(parts@).len() > 0 {
            texts(parts@)[0]
        } else {
            Seq::<char>::empty()
        });
        if same_text(command, help.as_slice()) {
            "Available commands: .help, .exit, .tables, .backend, .schema\n".to_owned()
        } else if same_text(command, tables.as_slice()) {
            let names = self.db.get_table_names();
            let mut list: String = String::new();
            let mut i: usize = 0;
            while i < names.len()
                invariant
                    i <= names.len(),
                    names@.len() == self@.names().len(),
                    forall|k: int|
                        0 <= k < names@.len() ==> (#[trigger] names@[k])@ == self@.names()[k],
                    list@ == names_text(self@.names().take(i as int)),
                decreases names.len() - i,
            {
                assert(self@.names().take(i + 1).drop_last() == self@.names().take(i as int));
                list.append(" ");
                list.append(names[i].as_str());
                i = i + 1;
            }
            assert(self@.names().take(names.len() as int) == self@.names());
            let mut reply: String = "Active Tables: ".to_owned();
            reply.append(list.as_str());
            reply.append("\n");
            reply
        } else if same_text(command, backend.as_slice()) {
            "Currently using in-memory storage\n".to_owned()
        } else if same_text(command, schema.as_slice()) {
            if parts.len() < 2 {
                return "Expected format: .schema {table}\n".to_owned();
            }
            let table_name = to_string(parts[1]);
            proof {
                self.db.lemma_inv();
            }
            match self.db.get_table(table_name.as_str()) {
                None => {
                    let mut reply: String = "Table (".to_owned();
                    reply.append(table_name.as_str());
                    reply.append(") not found\n");
                    reply
                },
                Some(table) => {
                    let mut reply = header_line(table.columns());
                    reply.append("\n");
                    reply
                },
            }
        } else {
            "Unknown command, type .help\n".to_owned()
        }
    }

    /// Carries out the directive `input`: answers `.help`, `.tables`,
    /// `.backend` and `.schema`, and says of any other that it is unknown.
    pub fn execute_command(&mut self, input: &str) -> (reply: String)
        requires
            old(self).inv(),
        ensures
            final(self).inv(),
            final(self)@@ == old(self)@@,
            final(self)@.names() == old(self)@.names(),
            reply@ == directive_reply(old(self)@@, old(self)@.names(), trimmed(input@)),
    {
        let chars = to_chars(input);
        self.directive(trim(chars.as_slice()))
    }

    /// Answers the selection `input`.
    pub fn handle_select(&mut self, input: &str) -> (reply: String)
        requires
            old(self).inv(),
        ensures
            final(self).inv(),
            final(self)@@ == old(self)@@,
            final(self)@.names() == old(self)@.names(),
            answers_select(
                old(self)@@,
                trimmed(input@),
                uppercase_text(trimmed(input@)),
                reply@,
            ),
    {
        crate::handler::handle_select(&mut self.db, input)
    }

    /// Carries out the insertion `input`.
    pub fn handle_insert(&mut self, input: &str) -> (reply: String)
        requires
            old(self).inv(),
            old(self)@.has_room(),
        ensures
            final(self).inv(),
            final(self)@.names() == old(self)@.names(),
            answers_insert(
                old(self)@@,
                final(self)@@,
                trimmed(input@),
                uppercase_text(trimmed(input@)),
                reply@,
            ),
    {
        crate::handler::handle_insert(&mut self.db, input)
    }

    /// Whether `outcome` and the tables `after` are what the line `line`,
    /// whose upper-case form is `upper`, leads to on the tables `before`,
    /// whose names are `names`: a directive, a selection and an insertion are
    /// answered, `.exit` ends the session, and any other line is passed over
    /// without a word.
    pub open spec fn leads_to(
        before: Map<Seq<char>, Table<MemoryStorage>>,
        names: Seq<Seq<char>>,
        after: Map<Seq<char>, Table<MemoryStorage>>,
        line: Seq<char>,
        upper: Seq<char>,
        outcome: Outcome,
    ) -> bool {
        match line_kind(line, upper) {
            LineKind::Exit => outcome is Exit && after == before,
            LineKind::Directive => {
                &&& outcome matches Outcome::Reply(text)
                &&& text@ == directive_reply(before, names, line)
                &&& after == before
            },
            LineKind::Select => {
                &&& outcome matches Outcome::Reply(text)
                &&& answers_select(before, line, upper, text@)
                &&& after == before
            },
            LineKind::Insert => {
                &&& outcome matches Outcome::Reply(text)
                &&& answers_insert(before, after, line, upper, text@)
            },
            LineKind::Other => outcome is Ignored && after == before,
        }
    }

    /// Takes the line `line`, without whitespace at its ends, whose
    /// upper-case form is `upper`, and does what it asks for.
    pub fn step(&mut self, line: &[char], upper: &[char]) -> (outcome: Outcome)
        requires
            old(self).inv(),
            old(self)@.has_room(),
        ensures
            final(self).inv(),
            final(self)@.names() == old(self)@.names(),
            Self::leads_to(
                old(self)@@,
                old(self)@.names(),
                final(self)@@,
                line@,
                upper@,
                outcome,
            ),
    {
        match classify(line, upper) {
            LineKind::Exit => Outcome::Exit,
            LineKind::Directive => Outcome::Reply(self.directive(line)),
            LineKind::Select => Outcome::Reply(select_statement(&mut self.db, line, upper)),
            LineKind::Insert => Outcome::Reply(insert_statement(&mut self.db, line, upper)),
            LineKind::Other => Outcome::Ignored,
        }
    }

    /// Takes one line of input and does what it asks for: the line is read
    /// without the whitespace at its ends.
    pub fn process_line(&mut self, input: &str) -> (outcome: Outcome)
        requires
            old(self).inv(),
            old(self)@.has_room(),
        ensures
            final(self).inv(),
            final(self)@.names() == old(self)@.names(),
            Self::leads_to(
                old(self)@@,
                old(self)@.names(),
                final(self)@@,
                trimmed(input@),
                uppercase_text(trimmed(input@)),
                outcome,
            ),
    {
        let chars = to_chars(input);
        let line = trim(chars.as_slice());
        let upper = to_chars(to_uppercase(to_string(line).as_str()).as_str());
        self.step(line, upper.as_slice())
    }
}

} // verus!
