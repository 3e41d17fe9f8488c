use crate::data::column::columns_view;
use crate::data::column::Column;
use crate::data::table::Table;
use crate::data::value::ValueView;
use crate::execute::create_table::Error;
use crate::data::table::TableView;
use crate::text::str_eq;
use vstd::prelude::*;

verus! {

/// The tables of one session, each under its name, in the order of their creation.
pub struct Database {
    pub tables: Vec<(String, Table)>,
}

/// What a `Database` stands for: the names and the tables.
pub type DatabaseView = Seq<(Seq<char>, TableView)>;

impl View for Database {
    type V = DatabaseView;

    open spec fn view(&self) -> DatabaseView {
        self.tables@.map_values(|e: (String, Table)| (e.0@, e.1@))
    }
}

/// Whether `i` is the place of the first table with that name.
pub open spec fn is_first_named(db: DatabaseView, name: Seq<char>, i: int) -> bool {
    &&& 0 <= i < db.len()
    &&& db[i].0 == name
    &&& forall|j: int| 0 <= j < i ==> (#[trigger] db[j]).0 != name
}

/// The place of the table with that name, if there is one.
pub open spec fn lookup(db: DatabaseView, name: Seq<char>) -> Option<int> {
    if exists|i: int| is_first_named(db, name, i) {
        Some(choose|i: int| is_first_named(db, name, i))
    } else {
        None
    }
}

/// What holds of a database: no two tables share a name, and every table is well
/// formed.
pub open spec fn database_wf(db: DatabaseView) -> bool {
    &&& forall|i: int, j: int| 0 <= i < j < db.len() ==> (#[trigger] db[i]).0 != (#[trigger] db[j]).0
    &&& forall|i: int| 0 <= i < db.len() ==> (#[trigger] db[i]).1.wf()
}

impl Database {
    /// Whether this database is well formed.
    pub open spec fn wf(&self) -> bool {
        database_wf(self@)
    }

    /// A database without tables.
    pub fn new() -> (db: Database)
        ensures
            db@ == Seq::<(Seq<char>, TableView)>::empty(),
            db.wf(),
    {
        let db = Database { tables: Vec::new() };
        assert(db@ =~= Seq::<(Seq<char>, TableView)>::empty());
        db
    }

    /// Whether this database is well formed: no two tables share a name, and every
    /// table is well formed.
    pub fn is_well_formed(&self) -> (ok: bool)
        ensures
            ok == self.wf(),
    {
        let mut i: usize = 0;
        while i < self.tables.len()
            invariant
                i <= self.tables.len(),
                forall|a: int, b: int|
                    0 <= a < b < i ==> (#[trigger] self@[a]).0 != (#[trigger] self@[b]).0,
                forall|a: int| 0 <= a < i ==> (#[trigger] self@[a]).1.wf(),
            decreases self.tables.len() - i,
        {
            assert(self@[i as int].1 == self.tables[i as int].1@);
            if !self.tables[i].1.is_well_formed() {
                return false;
            }
            let mut j: usize = 0;
            while j < i
                invariant
                    j <= i,
                    i < self.tables.len(),
                    forall|a: int| 0 <= a < j ==> (#[trigger] self@[a]).0 != self@[i as int].0,
                decreases i - j,
            {
                if str_eq(self.tables[j].0.as_str(), self.tables[i].0.as_str()) {
                    assert(self@[j as int].0 == self@[i as int].0);
                    return false;
                }
                j += 1;
            }
            i += 1;
        }
        true
    }

    /// Adds a table without rows under a name. Fails, and changes nothing, where the
    /// database holds a table of that name already.
    pub fn create_table(&mut self, name: String, columns: Vec<Column>) -> (res: Result<(), Error>)
        requires
            old(self).wf(),
        ensures
            match res {
                Ok(_) => lookup(old(self)@, name@) is None && final(self)@ == old(self)@.push(
                    (name@, TableView { columns: columns_view(columns@), rows: Seq::empty() }),
                ),
                Err(_) => lookup(old(self)@, name@) is Some && final(self)@ == old(self)@,
            },
            final(self).wf(),
    {
        if self.position(name.as_str()).is_some() {
            return Err(Error::TableExists);
        }
        let table = Table { columns: columns, rows: Vec::new() };
        assert(table@.rows =~= Seq::<Seq<ValueView>>::empty());
        self.tables.push((name, table));
        assert(self@ =~= old(self)@.push((name@, table@)));
        Ok(())
    }

    /// The place of the table with that name.
    pub fn position(&self, table: &str) -> (place: Option<usize>)
        ensures
            match place {
                Some(i) => lookup(self@, table@) == Some(i as int) && i < self.tables.len(),
                None => lookup(self@, table@) == None::<int> && forall|j: int|
                    0 <= j < self@.len() ==> (#[trigger] self@[j]).0 != table@,
            },
    {
        let mut i: usize = 0;
        while i < self.tables.len()
            invariant
                i <= self.tables.len(),
                forall|j: int| 0 <= j < i ==> (#[trigger] self@[j]).0 != table@,
            decreases self.tables.len() - i,
        {
            if str_eq(self.tables[i].0.as_str(), table) {
                assert(is_first_named(self@, table@, i as int));
                return Some(i);
            }
            i += 1;
        }
        None
    }

    /// The table with that name, if there is one.
    pub fn find_table(&self, table: &str) -> (found: Option<&Table>)
        ensures
            match found {
                Some(t) => lookup(self@, table@) is Some && *t == self.tables[lookup(
                    self@,
                    table@,
                )->0].1,
                None => lookup(self@, table@) == None::<int>,
            },
    {
        match self.position(table) {
            Some(i) => Some(&self.tables[i].1),
            None => None,
        }
    }

    /// The table with that name, to be changed in place, if there is one.
    pub fn find_table_mut(&mut self, table: &str) -> (found: Option<&mut Table>)
        ensures
            match found {
                Some(t) => {
                    let i = lookup(old(self)@, table@)->0;
                    &&& lookup(old(self)@, table@) is Some
                    &&& *t == old(self).tables[i].1
                    &&& final(self).tables@ == old(self).tables@.update(
                        i,
                        (old(self).tables[i].0, *final(t)),
                    )
                },
                None => lookup(old(self)@, table@) == None::<int> && *final(self) == *old(self),
            },
    {
        match self.position(table) {
            Some(i) => Some(&mut self.tables[i].1),
            None => None,
        }
    }
}

} // verus!
