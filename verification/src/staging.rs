//! Locating the packaged output: the packaging script stages its output
//! into a fresh directory, and exactly one staged subdirectory is
//! expected, recognizable by a fixed name prefix. The vendor phase picks
//! the first entry carrying that prefix out of the staging listing.

use vstd::prelude::*;

verus! {

/// `p` is a prefix of `s`.
pub open spec fn has_prefix(s: Seq<u8>, p: Seq<u8>) -> bool {
    p.len() <= s.len() && s.subrange(0, p.len() as int) == p
}

/// The name prefix that marks the packaged source subdirectory inside
/// the staging directory: the bytes of `"mozjs-"`.
pub open spec fn staged_prefix() -> Seq<u8> {
    seq![109u8, 111u8, 122u8, 106u8, 115u8, 45u8]
}

/// The bytes of [`staged_prefix`], for the executable search.
pub fn staged_prefix_bytes() -> (r: Vec<u8>)
    ensures
        r@ == staged_prefix(),
{
    let mut p: Vec<u8> = Vec::new();
    p.push(109);
    p.push(111);
    p.push(122);
    p.push(106);
    p.push(115);
    p.push(45);
    proof {
        assert(p@ =~= staged_prefix());
    }
    p
}

/// Executable check deciding [`has_prefix`] on the views of two names.
pub fn starts_with_bytes(s: &Vec<u8>, p: &Vec<u8>) -> (r: bool)
    ensures
        r == has_prefix(s@, p@),
{
    if p.len() > s.len() {
        return false;
    }
    let mut i: usize = 0;
    while i < p.len()
        invariant
            i <= p@.len(),
            p@.len() <= s@.len(),
            forall|j: int| 0 <= j < i ==> s@[j] == p@[j],
        decreases p@.len() - i,
    {
        if s[i] != p[i] {
            proof {
                assert(s@.subrange(0, p@.len() as int)[i as int] != p@[i as int]);
            }
            return false;
        }
        i = i + 1;
    }
    proof {
        assert(s@.subrange(0, p@.len() as int) =~= p@);
    }
    true
}

/// Index of the first listing entry whose name carries the given prefix,
/// or `None` when no entry does.
pub fn find_prefixed(names: &Vec<Vec<u8>>, p: &Vec<u8>) -> (r: Option<usize>)
    ensures
        match r {
            Some(i) => i < names@.len() && has_prefix(names@[i as int]@, p@) && forall|j: int|
                0 <= j < i ==> !has_prefix(names@[j]@, p@),
            None => forall|j: int| 0 <= j < names@.len() ==> !has_prefix(names@[j]@, p@),
        },
{
    let mut i: usize = 0;
    while i < names.len()
        invariant
            i <= names@.len(),
            forall|j: int| 0 <= j < i ==> !has_prefix(names@[j]@, p@),
        decreases names@.len() - i,
    {
        if starts_with_bytes(&names[i], p) {
            return Some(i);
        }
        i = i + 1;
    }
    None
}

} // verus!
