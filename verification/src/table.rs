//! A table: the collection of key-value entries of a database.
//!
//! A table and a room are one mechanism under two names — a database is a
//! store and a table is a room. The type delegates every operation to the
//! room it wraps, so the behaviour is implemented and verified once.

use vstd::prelude::*;

use crate::paths::spec_child_dir;
use crate::room::Room;

verus! {

pub struct Table {
    inner: Room,
}

impl Table {
    /// The room this table delegates to.
    pub closed spec fn spec_room(self) -> Room {
        self.inner
    }

    /// The table's human-readable name.
    pub open spec fn spec_name(self) -> Seq<char> {
        self.spec_room().spec_name()
    }

    /// The directory of the database the table belongs to.
    pub open spec fn spec_root_dir(self) -> Seq<char> {
        self.spec_room().spec_root_dir()
    }

    /// The directory holding the table's entries.
    pub open spec fn spec_dir(self) -> Seq<char> {
        self.spec_room().spec_dir()
    }

    /// A handle is well formed when the room it wraps is.
    pub open spec fn wf(self) -> bool {
        self.spec_room().wf()
    }

    /// Open or create the table: build the handle for
    /// `root_dir / encode(name)`. The I/O layer ensures the directory
    /// exists on disk.
    pub fn init(root_dir: String, name: &str) -> (table: Table)
        ensures
            table.wf(),
            table.spec_name() == name@,
            table.spec_root_dir() == root_dir@,
    {
        Table { inner: Room::init(root_dir, name) }
    }

    /// The name of the current table.
    pub fn get_name(&self) -> (r: String)
        ensures
            r@ == self.spec_name(),
    {
        self.inner.get_name()
    }

    /// The path of the table's directory — what the I/O layer creates,
    /// lists, truncates, or renames.
    pub fn dir_path(&self) -> (r: String)
        ensures
            r@ == self.spec_dir(),
    {
        self.inner.dir_path()
    }

    /// The path of the file holding a key's value.
    pub fn key_path(&self, key: &str) -> (r: String)
        ensures
            r@ == spec_child_dir(self.spec_dir(), key@),
    {
        self.inner.key_path(key)
    }

    /// The directory a rename to `new_name` would move the table to.
    pub fn rename_target(&self, new_name: &str) -> (r: String)
        ensures
            r@ == spec_child_dir(self.spec_root_dir(), new_name@),
    {
        self.inner.rename_target(new_name)
    }

    /// Conclude a rename reported by the I/O layer: the in-memory name and
    /// directory change exactly when the directory really moved.
    pub fn apply_rename(&mut self, new_name: &str, renamed: bool) -> (r: bool)
        requires
            old(self).wf(),
        ensures
            final(self).wf(),
            r == renamed,
            renamed ==> final(self).spec_name() == new_name@,
            renamed ==> final(self).spec_root_dir() == old(self).spec_root_dir(),
            !renamed ==> *final(self) == *old(self),
    {
        self.inner.apply_rename(new_name, renamed)
    }
}

} // verus!
