//! A room: a flat collection of key-value entries inside a store.
//!
//! The handle carries the room's human-readable name and the directory it
//! lives in; every entry is one file under that directory whose name is the
//! encoded key and whose content is the value. The handle itself is pure:
//! it computes the paths that the operations touch and keeps its fields
//! consistent with the directory the room really occupies. The I/O layer
//! performs the filesystem calls on the paths it hands out and reports
//! their outcomes back.

use vstd::prelude::*;
use vstd::string::StringExecFns;

use crate::paths;
use crate::paths::spec_child_dir;

verus! {

pub struct Room {
    name: String,
    root_dir: String,
    room_dir: String,
}

impl Room {
    /// The room's human-readable name.
    pub closed spec fn spec_name(self) -> Seq<char> {
        self.name@
    }

    /// The directory of the store the room belongs to.
    pub closed spec fn spec_root_dir(self) -> Seq<char> {
        self.root_dir@
    }

    /// The directory holding the room's entries.
    pub closed spec fn spec_dir(self) -> Seq<char> {
        self.room_dir@
    }

    /// A handle is well formed when its directory is the encoded child of
    /// its root — the invariant every operation preserves.
    pub closed spec fn wf(self) -> bool {
        self.room_dir@ == spec_child_dir(self.root_dir@, self.name@)
    }

    /// Open or create the room: build the handle for `root_dir / encode(name)`.
    /// Opening the same name under the same root always yields a handle on
    /// the same directory. The I/O layer ensures the directory exists on disk.
    pub fn init(root_dir: String, name: &str) -> (room: Room)
        ensures
            room.wf(),
            room.spec_name() == name@,
            room.spec_root_dir() == root_dir@,
    {
        let room_dir = paths::child_dir(root_dir.as_str(), name);
        Room { name: String::from_str(name), root_dir, room_dir }
    }

    /// The name of the current room.
    pub fn get_name(&self) -> (r: String)
        ensures
            r@ == self.spec_name(),
    {
        self.name.clone()
    }

    /// The path of the room's directory — what the I/O layer creates,
    /// lists, truncates, or renames.
    pub fn dir_path(&self) -> (r: String)
        ensures
            r@ == self.spec_dir(),
    {
        self.room_dir.clone()
    }

    /// The path of the file holding a key's value.
    pub fn key_path(&self, key: &str) -> (r: String)
        ensures
            r@ == spec_child_dir(self.spec_dir(), key@),
    {
        paths::child_dir(self.room_dir.as_str(), key)
    }

    /// The directory a rename to `new_name` would move the room to.
    pub fn rename_target(&self, new_name: &str) -> (r: String)
        ensures
            r@ == spec_child_dir(self.spec_root_dir(), new_name@),
    {
        paths::child_dir(self.root_dir.as_str(), new_name)
    }

    /// Conclude a rename: the I/O layer attempted the move from
    /// `dir_path()` to `rename_target(new_name)` and reports whether it
    /// succeeded. The in-memory name and directory change exactly when the
    /// directory really moved, so the handle never diverges from disk.
    pub fn apply_rename(&mut self, new_name: &str, renamed: bool) -> (r: bool)
        requires
            old(self).wf(),
        ensures
            final(self).wf(),
            r == renamed,
            renamed ==> final(self).spec_name() == new_name@,
            renamed ==> final(self).spec_root_dir() == old(self).spec_root_dir(),
            !renamed ==> *final(self) == *old(self),
    {
        if renamed {
            self.room_dir = paths::child_dir(self.root_dir.as_str(), new_name);
            self.name = String::from_str(new_name);
        }
        renamed
    }
}

/// Two independently opened handles with the same root and name operate on
/// the same directory: state persisted through one is observed through the
/// other.
pub proof fn lemma_handles_agree(a: Room, b: Room)
    requires
        a.wf(),
        b.wf(),
        a.spec_root_dir() == b.spec_root_dir(),
        a.spec_name() == b.spec_name(),
    ensures
        a.spec_dir() == b.spec_dir(),
{
}

/// A renamed room occupies exactly the directory a fresh handle opened
/// under the new name points at, so everything stored before the rename is
/// exposed after reopening.
pub proof fn lemma_rename_then_reopen(renamed: Room, reopened: Room)
    requires
        renamed.wf(),
        reopened.wf(),
        renamed.spec_root_dir() == reopened.spec_root_dir(),
        renamed.spec_name() == reopened.spec_name(),
    ensures
        renamed.spec_dir() == reopened.spec_dir(),
{
}

/// Distinct keys live in distinct files of one room: writing one entry can
/// never touch another.
pub proof fn lemma_key_paths_distinct(room: Room, k1: Seq<char>, k2: Seq<char>)
    requires
        k1 != k2,
    ensures
        spec_child_dir(room.spec_dir(), k1) != spec_child_dir(room.spec_dir(), k2),
{
    if spec_child_dir(room.spec_dir(), k1) == spec_child_dir(room.spec_dir(), k2) {
        paths::lemma_child_dir_injective(room.spec_dir(), k1, k2);
    }
}

} // verus!
