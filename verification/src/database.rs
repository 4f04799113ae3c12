//! The database: the tables by name.

use crate::memory::MemoryStorage;
use crate::table::Table;
use vstd::prelude::*;

verus! {

/// A table under its name.
struct Entry {
    name: String,
    table: Table<MemoryStorage>,
}

/// The names of `entries`, in order.
spec fn names_of(entries: Seq<Entry>) -> Seq<Seq<char>> {
    Seq::new(entries.len(), |i: int| entries[i].name@)
}

/// The tables of `entries` by name.
spec fn tables_of(entries: Seq<Entry>) -> Map<Seq<char>, Table<MemoryStorage>> {
    Map::new(
        |name: Seq<char>| names_of(entries).contains(name),
        |name: Seq<char>| entries[names_of(entries).index_of(name)].table,
    )
}

/// Where no name stands twice, the entry at a place is the one that its name
/// leads to.
proof fn lemma_place(entries: Seq<Entry>, i: int)
    requires
        names_of(entries).no_duplicates(),
        0 <= i < entries.len(),
    ensures
        names_of(entries).contains(entries[i].name@),
        names_of(entries).index_of(entries[i].name@) == i,
        tables_of(entries).contains_key(entries[i].name@),
        tables_of(entries)[entries[i].name@] == entries[i].table,
{
    let names = names_of(entries);
    let j = names.index_of(entries[i].name@);
    assert(names[j] == names[i]);
}

/// A new table at a place changes the table under the name of the place
/// and nothing else.
proof fn lemma_replace(entries: Seq<Entry>, i: int, after: Seq<Entry>)
    requires
        names_of(entries).no_duplicates(),
        0 <= i < entries.len(),
        after.len() == entries.len(),
        after[i].name@ == entries[i].name@,
        forall|k: int| 0 <= k < entries.len() && k != i ==> after[k] == entries[k],
    ensures
        names_of(after) == names_of(entries),
        tables_of(after) == tables_of(entries).insert(entries[i].name@, after[i].table),
{
    assert(names_of(after) =~= names_of(entries));
    assert forall|name: Seq<char>| names_of(entries).contains(name) implies #[trigger] tables_of(
        after,
    )[name] == tables_of(entries).insert(entries[i].name@, after[i].table)[name] by {
        let k = names_of(entries).index_of(name);
        lemma_place(entries, k);
        lemma_place(entries, i);
    }
    assert(tables_of(after) =~= tables_of(entries).insert(entries[i].name@, after[i].table)) by {
        lemma_place(entries, i);
    }
}

/// A new name at the end brings its table and changes nothing else.
proof fn lemma_append(entries: Seq<Entry>, entry: Entry)
    requires
        names_of(entries).no_duplicates(),
        !names_of(entries).contains(entry.name@),
    ensures
        names_of(entries.push(entry)) == names_of(entries).push(entry.name@),
        names_of(entries.push(entry)).no_duplicates(),
        tables_of(entries.push(entry)) == tables_of(entries).insert(entry.name@, entry.table),
{
    let after = entries.push(entry);
    assert(names_of(after) =~= names_of(entries).push(entry.name@));
    assert(names_of(after).no_duplicates());
    assert forall|name: Seq<char>| names_of(after).contains(name) implies #[trigger] tables_of(
        after,
    )[name] == tables_of(entries).insert(entry.name@, entry.table)[name] by {
        let k = names_of(after).index_of(name);
        lemma_place(after, k);
        if k < entries.len() {
            lemma_place(entries, k);
        }
    }
    assert forall|name: Seq<char>| names_of(after).contains(name) <==> (names_of(
        entries,
    ).contains(name) || name == entry.name@) by {
        if names_of(entries).contains(name) {
            let k = names_of(entries).index_of(name);
            assert(names_of(after)[k] == name);
        }
        if name == entry.name@ {
            assert(names_of(after)[entries.len() as int] == name);
        }
    }
}

/// The tables of a database by name. Each name stands for one table; the names
/// are kept in the order in which they were first added.
pub struct Database {
    entries: Vec<Entry>,
}

impl View for Database {
    type V = Map<Seq<char>, Table<MemoryStorage>>;

    /// The tables by name.
    closed spec fn view(&self) -> Map<Seq<char>, Table<MemoryStorage>> {
        tables_of(self.entries@)
    }
}

impl Database {
    /// The names of the tables, in the order in which they were first added.
    pub closed spec fn names(&self) -> Seq<Seq<char>> {
        names_of(self.entries@)
    }

    /// Whether the database is in order: no name stands twice, and every
    /// table is in order.
    pub closed spec fn inv(&self) -> bool {
        &&& self.names().no_duplicates()
        &&& forall|i: int| 0 <= i < self.entries@.len() ==> (#[trigger] self.entries@[i]).table.inv()
    }

    /// Whether every table can take another row.
    pub open spec fn has_room(&self) -> bool {
        forall|name: Seq<char>| #[trigger]
            self@.contains_key(name) ==> self@[name].state().has_room()
    }

    /// In a database that is in order the names are the keys, each once, and
    /// every table is in order.
    pub proof fn lemma_inv(&self)
        requires
            self.inv(),
        ensures
            self.names().no_duplicates(),
            self.names().to_set() == self@.dom(),
            forall|name: Seq<char>| #[trigger] self@.contains_key(name) ==> self@[name].inv(),
    {
        assert forall|name: Seq<char>| #[trigger] self@.contains_key(name) implies self@[name].inv() by {
            let i = self.names().index_of(name);
        }
    }

    /// A database without tables.
    pub fn new() -> (db: Database)
        ensures
            db.inv(),
            db@ == Map::<Seq<char>, Table<MemoryStorage>>::empty(),
            db.names() == Seq::<Seq<char>>::empty(),
    {
        let db = Database { entries: Vec::new() };
        db
    }

    /// The place of the table named `name`, if there is one.
    fn position(&self, name: &str) -> (place: Option<usize>)
        ensures
            match place {
                Some(i) => i < self.entries@.len() && self.entries@[i as int].name@ == name@,
                None => !self.names().contains(name@),
            },
    {
        let wanted: String = name.to_owned();
        let mut i: usize = 0;
        while i < self.entries.len()
            invariant
                i <= self.entries@.len(),
                wanted@ == name@,
                forall|k: int| 0 <= k < i ==> self.names()[k] != name@,
            decreases self.entries@.len() - i,
        {
            if self.entries[i].name == wanted {
                return Some(i);
            }
            i = i + 1;
        }
        None
    }

    /// Puts `table` under `name`. A table that stood under this name before
    /// is dropped with all its rows.
    pub fn add_table(&mut self, name: &str, table: Table<MemoryStorage>)
        requires
            old(self).inv(),
            table.inv(),
        ensures
            final(self).inv(),
            final(self)@ == old(self)@.insert(name@, table),
            final(self).names() == if old(self)@.contains_key(name@) {
                old(self).names()
            } else {
                old(self).names().push(name@)
            },
    {
        match self.position(name) {
            Some(i) => {
                self.entries[i].table = table;
                proof {
                    lemma_place(old(self).entries@, i as int);
                    lemma_replace(old(self).entries@, i as int, self.entries@);
                }
            },
            None => {
                let entry = Entry { name: name.to_owned(), table };
                proof {
                    lemma_append(self.entries@, entry);
                }
                self.entries.push(entry);
            },
        }
    }

    /// The table named `name`, if there is one, open to change.
    pub fn get_table(&mut self, name: &str) -> (table: Option<&mut Table<MemoryStorage>>)
        requires
            old(self).inv(),
        ensures
            match table {
                Some(t) => {
                    &&& old(self)@.contains_key(name@)
                    &&& *t == old(self)@[name@]
                    &&& final(self)@ == old(self)@.insert(name@, *final(t))
                    &&& final(self).names() == old(self).names()
                    &&& final(t).inv() ==> final(self).inv()
                },
                None => !old(self)@.contains_key(name@) && *final(self) == *old(self),
            },
    {
        match self.position(name) {
            Some(i) => {
                proof {
                    let before = self.entries@;
                    lemma_place(before, i as int);
                    assert forall|after: Seq<Entry>|
                        after.len() == before.len() && after[i as int].name@ == before[i as int].name@
                            && (forall|k: int|
                            0 <= k < before.len() && k != i ==> after[k] == before[k])
                        implies #[trigger] names_of(after) == names_of(before) && #[trigger] tables_of(
                        after,
                    ) == tables_of(before).insert(before[i as int].name@, after[i as int].table) by {
                        lemma_replace(before, i as int, after);
                    }
                }
                Some(&mut self.entries[i].table)
            },
            None => None,
        }
    }

    /// Whether every table can take another row.
    pub fn check_room(&self) -> (room: bool)
        requires
            self.inv(),
        ensures
            room == self.has_room(),
    {
        let mut i: usize = 0;
        while i < self.entries.len()
            invariant
                i <= self.entries@.len(),
                self.inv(),
                forall|k: int| 0 <= k < i ==> (#[trigger] self.entries@[k]).table.state().has_room(),
            decreases self.entries@.len() - i,
        {
            if !self.entries[i].table.has_room() {
                proof {
                    lemma_place(self.entries@, i as int);
                    assert(self@.contains_key(self.entries@[i as int].name@));
                }
                return false;
            }
            i = i + 1;
        }
        proof {
            assert forall|name: Seq<char>| #[trigger] self@.contains_key(name) implies self@[name].state().has_room() by {
                let k = self.names().index_of(name);
            }
        }
        true
    }

    /// The names of the tables, in the order in which they were first added.
    pub fn get_table_names(&self) -> (names: Vec<&String>)
        ensures
            names@.len() == self.names().len(),
            forall|i: int| 0 <= i < names@.len() ==> (#[trigger] names@[i])@ == self.names()[i],
    {
        let mut names: Vec<&String> = Vec::new();
        let mut i: usize = 0;
        while i < self.entries.len()
            invariant
                i <= self.entries@.len(),
                names@.len() == i,
                forall|k: int| 0 <= k < i ==> (#[trigger] names@[k])@ == self.names()[k],
            decreases self.entries@.len() - i,
        {
            names.push(&self.entries[i].name);
            i = i + 1;
        }
        names
    }
}

} // verus!
