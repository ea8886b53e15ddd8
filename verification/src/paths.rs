//! Building the paths that the store lives at.
//!
//! A container's directory is always `root / encode(name)`, and an entry's
//! file is `collection_dir / encode(key)`: one shape, applied at each depth.
//! Because an encoded segment never holds a separator, a joined path
//! determines its segment, and with the codec's injectivity two distinct
//! names can never collide on one directory or file.

use vstd::prelude::*;
use vstd::string::StringExecFns;

use crate::codec;
use crate::codec::spec_encode;

verus! {

/// A directory path extended by one path segment.
pub open spec fn spec_join(dir: Seq<char>, seg: Seq<char>) -> Seq<char> {
    dir + seq!['/'] + seg
}

/// The directory of a named child: the parent's path joined with the
/// encoding of the child's name.
pub open spec fn spec_child_dir(root: Seq<char>, name: Seq<char>) -> Seq<char> {
    spec_join(root, spec_encode(name))
}

/// Join a directory path and a path segment.
pub fn join(dir: &str, seg: &str) -> (r: String)
    ensures
        r@ == spec_join(dir@, seg@),
{
    let mut r = String::new();
    r.append(dir);
    r.append("/");
    r.append(seg);
    proof {
        reveal_strlit("/");
        assert(r@ =~= spec_join(dir@, seg@));
    }
    r
}

/// The path of the directory or file a named child occupies under `root`.
pub fn child_dir(root: &str, name: &str) -> (r: String)
    ensures
        r@ == spec_child_dir(root@, name@),
{
    let seg = codec::encode(name);
    join(root, seg.as_str())
}

/// Under one parent, joining determines the segment.
pub proof fn lemma_join_injective(dir: Seq<char>, s1: Seq<char>, s2: Seq<char>)
    requires
        spec_join(dir, s1) == spec_join(dir, s2),
    ensures
        s1 == s2,
{
    let j1 = spec_join(dir, s1);
    let j2 = spec_join(dir, s2);
    assert(s1 =~= j1.subrange(dir.len() as int + 1,j1.len() as int));
    assert(s2 =~= j2.subrange(dir.len() as int + 1,j2.len() as int));
}

/// Under one parent, distinct names occupy distinct paths.
pub proof fn lemma_child_dir_injective(root: Seq<char>, n1: Seq<char>, n2: Seq<char>)
    requires
        spec_child_dir(root, n1) == spec_child_dir(root, n2),
    ensures
        n1 == n2,
{
    lemma_join_injective(root, spec_encode(n1), spec_encode(n2));
    codec::lemma_encode_injective(n1, n2);
}

} // verus!
