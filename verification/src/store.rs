//! A store: a named container of rooms.
//!
//! The same shape as a room, one level up: the handle carries the store's
//! name and the directory derived from it, and each room is a subdirectory
//! whose name is the encoded room name. Like the room handle it is pure —
//! the I/O layer creates, renames and deletes the directories whose paths
//! it computes.

use vstd::prelude::*;
use vstd::string::StringExecFns;

use crate::paths;
use crate::paths::spec_child_dir;
use crate::room::Room;

verus! {

pub struct Store {
    name: String,
    root_dir: String,
    store_dir: String,
}

impl Store {
    /// The store's human-readable name.
    pub closed spec fn spec_name(self) -> Seq<char> {
        self.name@
    }

    /// The parent directory the store lives under.
    pub closed spec fn spec_root_dir(self) -> Seq<char> {
        self.root_dir@
    }

    /// The directory holding the store's rooms.
    pub closed spec fn spec_dir(self) -> Seq<char> {
        self.store_dir@
    }

    /// A handle is well formed when its directory is the encoded child of
    /// its root — the invariant every operation preserves.
    pub closed spec fn wf(self) -> bool {
        self.store_dir@ == spec_child_dir(self.root_dir@, self.name@)
    }

    /// Open or create the store: build the handle for `path / encode(name)`.
    /// Opening the same name under the same root always yields a handle on
    /// the same directory. The I/O layer ensures the directory exists on disk.
    pub fn init(path: String, name: &str) -> (store: Store)
        ensures
            store.wf(),
            store.spec_name() == name@,
            store.spec_root_dir() == path@,
    {
        let store_dir = paths::child_dir(path.as_str(), name);
        Store { name: String::from_str(name), root_dir: path, store_dir }
    }

    /// The name of the current store.
    pub fn get_name(&self) -> (r: String)
        ensures
            r@ == self.spec_name(),
    {
        self.name.clone()
    }

    /// The path of the store's directory — what the I/O layer creates,
    /// renames, or deletes.
    pub fn dir_path(&self) -> (r: String)
        ensures
            r@ == self.spec_dir(),
    {
        self.store_dir.clone()
    }

    /// The directory a rename to `new_name` would move the store to.
    pub fn rename_target(&self, new_name: &str) -> (r: String)
        ensures
            r@ == spec_child_dir(self.spec_root_dir(), new_name@),
    {
        paths::child_dir(self.root_dir.as_str(), new_name)
    }

    /// Conclude a rename: the I/O layer attempted the move from
    /// `dir_path()` to `rename_target(new_name)` and reports whether it
    /// succeeded. The in-memory name and directory change exactly when the
    /// directory really moved, so the handle never diverges from disk.
    pub fn apply_rename(&mut self, new_name: &str, renamed: bool) -> (r: bool)
        requires
            old(self).wf(),
        ensures
            final(self).wf(),
            r == renamed,
            renamed ==> final(self).spec_name() == new_name@,
            renamed ==> final(self).spec_root_dir() == old(self).spec_root_dir(),
            !renamed ==> *final(self) == *old(self),
    {
        if renamed {
            self.store_dir = paths::child_dir(self.root_dir.as_str(), new_name);
            self.name = String::from_str(new_name);
        }
        renamed
    }

    /// Open or create the room of that name inside this store.
    pub fn init_room(&self, name: &str) -> (room: Room)
        ensures
            room.wf(),
            room.spec_name() == name@,
            room.spec_root_dir() == self.spec_dir(),
    {
        Room::init(self.store_dir.clone(), name)
    }

    /// The directory a named room occupies under this store — what
    /// dropping the room deletes.
    pub fn room_dir_path(&self, name: &str) -> (r: String)
        ensures
            r@ == spec_child_dir(self.spec_dir(), name@),
    {
        paths::child_dir(self.store_dir.as_str(), name)
    }
}

/// Two independently opened store handles with the same root and name
/// operate on the same directory, and hand out rooms that agree in turn.
pub proof fn lemma_handles_agree(a: Store, b: Store)
    requires
        a.wf(),
        b.wf(),
        a.spec_root_dir() == b.spec_root_dir(),
        a.spec_name() == b.spec_name(),
    ensures
        a.spec_dir() == b.spec_dir(),
{
}

/// Distinct room names occupy distinct directories of one store: dropping
/// one room can never touch another.
pub proof fn lemma_room_dirs_distinct(store: Store, n1: Seq<char>, n2: Seq<char>)
    requires
        n1 != n2,
    ensures
        spec_child_dir(store.spec_dir(), n1) != spec_child_dir(store.spec_dir(), n2),
{
    if spec_child_dir(store.spec_dir(), n1) == spec_child_dir(store.spec_dir(), n2) {
        paths::lemma_child_dir_injective(store.spec_dir(), n1, n2);
    }
}

} // verus!
