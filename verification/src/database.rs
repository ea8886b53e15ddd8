//! A database: a named container of tables.
//!
//! A database and a store are one mechanism under two names. The type
//! delegates every operation to the store it wraps, so the behaviour is
//! implemented and verified once.

use vstd::prelude::*;

use crate::paths::spec_child_dir;
use crate::store::Store;
use crate::table::Table;

verus! {

pub struct Database {
    inner: Store,
}

impl Database {
    /// The store this database delegates to.
    pub closed spec fn spec_store(self) -> Store {
        self.inner
    }

    /// The database's human-readable name.
    pub open spec fn spec_name(self) -> Seq<char> {
        self.spec_store().spec_name()
    }

    /// The parent directory the database lives under.
    pub open spec fn spec_root_dir(self) -> Seq<char> {
        self.spec_store().spec_root_dir()
    }

    /// The directory holding the database's tables.
    pub open spec fn spec_dir(self) -> Seq<char> {
        self.spec_store().spec_dir()
    }

    /// A handle is well formed when the store it wraps is.
    pub open spec fn wf(self) -> bool {
        self.spec_store().wf()
    }

    /// Open or create the database: build the handle for
    /// `path / encode(name)`. The I/O layer ensures the directory exists
    /// on disk.
    pub fn init(path: String, name: &str) -> (db: Database)
        ensures
            db.wf(),
            db.spec_name() == name@,
            db.spec_root_dir() == path@,
    {
        Database { inner: Store::init(path, name) }
    }

    /// The name of the current database.
    pub fn get_name(&self) -> (r: String)
        ensures
            r@ == self.spec_name(),
    {
        self.inner.get_name()
    }

    /// The path of the database's directory — what the I/O layer creates,
    /// renames, or deletes.
    pub fn dir_path(&self) -> (r: String)
        ensures
            r@ == self.spec_dir(),
    {
        self.inner.dir_path()
    }

    /// The directory a rename to `new_name` would move the database to.
    pub fn rename_target(&self, new_name: &str) -> (r: String)
        ensures
            r@ == spec_child_dir(self.spec_root_dir(), new_name@),
    {
        self.inner.rename_target(new_name)
    }

    /// Conclude a rename reported by the I/O layer: the in-memory name and
    /// directory change exactly when the directory really moved.
    pub fn apply_rename(&mut self, new_name: &str, renamed: bool) -> (r: bool)
        requires
            old(self).wf(),
        ensures
            final(self).wf(),
            r == renamed,
            renamed ==> final(self).spec_name() == new_name@,
            renamed ==> final(self).spec_root_dir() == old(self).spec_root_dir(),
            !renamed ==> *final(self) == *old(self),
    {
        self.inner.apply_rename(new_name, renamed)
    }

    /// Open or create the table of that name inside this database.
    pub fn init_table(&self, name: &str) -> (table: Table)
        ensures
            table.wf(),
            table.spec_name() == name@,
            table.spec_root_dir() == self.spec_dir(),
    {
        Table::init(self.inner.dir_path(), name)
    }

    /// The directory a named table occupies under this database — what
    /// dropping the table deletes.
    pub fn table_dir_path(&self, name: &str) -> (r: String)
        ensures
            r@ == spec_child_dir(self.spec_dir(), name@),
    {
        self.inner.room_dir_path(name)
    }
}

} // verus!
