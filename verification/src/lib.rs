//! A filesystem-backed hierarchical key-value store.
//!
//! Human-readable names and keys are turned into filesystem-safe path
//! segments by a reversible hex codec; a store is a directory of rooms,
//! a room a directory of entries, an entry a file whose name is the
//! encoded key and whose content is the value. A database and its tables
//! are the same mechanism under the other pair of names.
//!
//! The library holds everything the store decides and computes — the
//! codec, the paths each operation touches, how a handle's state follows
//! a rename's outcome, and which directory entries count as keys. The
//! filesystem calls themselves are performed by an unverified I/O layer
//! on the paths the library hands out.

pub mod codec;
pub mod database;
pub mod listing;
pub mod paths;
pub mod room;
pub mod store;
pub mod table;
