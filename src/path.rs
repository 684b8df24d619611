//! Paths as byte strings: splitting on `/`, and finding a name in a tree.
use vstd::prelude::*;
use vstd::slice::{slice_subrange, slice_to_vec};

use crate::object::TreeEntry;

verus! {

pub const SLASH: u8 = 0x2f;

pub const DOT: u8 = 0x2e;

/// The components of `s + tail`, where `tail` holds no `/`, as a stack: the
/// last element is the first component.
pub open spec fn stack_of(s: Seq<u8>, tail: Seq<u8>) -> Seq<Seq<u8>>
    decreases s.len(),
{
    if s.len() == 0 {
        seq![tail]
    } else if s.last() == SLASH {
        seq![tail] + stack_of(s.drop_last(), Seq::empty())
    } else {
        stack_of(s.drop_last(), seq![s.last()] + tail)
    }
}

/// The components of a path split on `/`, first component last, so that the
/// walk takes them from the end.
pub open spec fn component_stack(s: Seq<u8>) -> Seq<Seq<u8>> {
    stack_of(s, Seq::empty())
}

pub open spec fn is_dot(c: Seq<u8>) -> bool {
    c == seq![DOT]
}

pub open spec fn is_dot_dot(c: Seq<u8>) -> bool {
    c == seq![DOT, DOT]
}

/// A component that names a child: not empty, not `.`, not `..`.
pub open spec fn is_name(c: Seq<u8>) -> bool {
    c.len() > 0 && !is_dot(c) && !is_dot_dot(c)
}

pub open spec fn has_slash(c: Seq<u8>) -> bool {
    exists|i: int| 0 <= i < c.len() && c[i] == SLASH
}

/// The first entry of `entries` called `name`.
pub open spec fn lookup(entries: Seq<TreeEntry>, name: Seq<u8>) -> Option<TreeEntry>
    decreases entries.len(),
{
    if entries.len() == 0 {
        None
    } else if entries[0].name@ == name {
        Some(entries[0])
    } else {
        lookup(entries.skip(1), name)
    }
}

pub open spec fn deep(v: Seq<Vec<u8>>) -> Seq<Seq<u8>> {
    v.map_values(|c: Vec<u8>| c@)
}

pub fn bytes_equal(a: &[u8], b: &[u8]) -> (r: bool)
    ensures
        r == (a@ == b@),
{
    if a.len() != b.len() {
        return false;
    }
    let mut i: usize = 0;
    while i < a.len()
        invariant
            a@.len() == b@.len(),
            i <= a@.len(),
            forall|j: int| 0 <= j < i ==> a@[j] == b@[j],
        decreases a@.len() - i,
    {
        if a[i] != b[i] {
            return false;
        }
        i += 1;
    }
    assert(a@ =~= b@);
    true
}

pub fn is_dot_component(c: &[u8]) -> (r: bool)
    ensures
        r == is_dot(c@),
{
    let r = c.len() == 1 && c[0] == DOT;
    proof {
        if r {
            assert(c@ =~= seq![DOT]);
        }
    }
    r
}

pub fn is_dot_dot_component(c: &[u8]) -> (r: bool)
    ensures
        r == is_dot_dot(c@),
{
    let r = c.len() == 2 && c[0] == DOT && c[1] == DOT;
    proof {
        if r {
            assert(c@ =~= seq![DOT, DOT]);
        }
    }
    r
}

/// Pushes the components of `path` onto `stack`, first component on top.
pub fn push_components(stack: &mut Vec<Vec<u8>>, path: &[u8])
    ensures
        deep(final(stack)@) == deep(old(stack)@) + component_stack(path@),
{
    let ghost s = path@;
    let mut end: usize = path.len();
    let mut i: usize = path.len();
    assert(s.take(i as int) =~= s);
    assert(s.subrange(i as int, end as int) =~= Seq::<u8>::empty());
    while i > 0
        invariant
            s == path@,
            i <= end <= s.len(),
            deep(old(stack)@) + component_stack(s) == deep(stack@) + stack_of(
                s.take(i as int),
                s.subrange(i as int, end as int),
            ),
        decreases i,
    {
        let ghost pre = s.take(i as int);
        let ghost tail = s.subrange(i as int, end as int);
        assert(pre.drop_last() =~= s.take(i - 1));
        assert(pre.last() == s[i - 1]);
        if path[i - 1] == SLASH {
            let piece = slice_to_vec(slice_subrange(path, i, end));
            stack.push(piece);
            assert(deep(stack@) =~= deep(stack@.drop_last()) + seq![tail]);
            assert(s.subrange(i - 1, i - 1) =~= Seq::<u8>::empty());
            end = i - 1;
        } else {
            assert(seq![s[i - 1]] + tail =~= s.subrange(i - 1, end as int));
        }
        i -= 1;
    }
    let piece = slice_to_vec(slice_subrange(path, 0, end));
    let ghost before = deep(stack@);
    stack.push(piece);
    assert(deep(stack@) =~= before + seq![s.subrange(0, end as int)]);
    assert(s.take(0) =~= Seq::<u8>::empty());
}

/// Index of the first entry called `name`.
pub fn find_entry(entries: &Vec<TreeEntry>, name: &[u8]) -> (r: Option<usize>)
    ensures
        match r {
            Some(i) => i < entries@.len() && lookup(entries@, name@) == Some(entries@[i as int]),
            None => lookup(entries@, name@) is None,
        },
{
    let mut i: usize = 0;
    assert(entries@.skip(0) =~= entries@);
    while i < entries.len()
        invariant
            i <= entries@.len(),
            lookup(entries@, name@) == lookup(entries@.skip(i as int), name@),
        decreases entries@.len() - i,
    {
        assert(entries@.skip(i as int).skip(1) =~= entries@.skip(i + 1));
        if bytes_equal(entries[i].name.as_slice(), name) {
            return Some(i);
        }
        i += 1;
    }
    None
}

} // verus!
