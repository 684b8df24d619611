//! The repository filesystem engine: path resolution over the committed tree,
//! with caches for trees, blob contents and parent links.
use vstd::prelude::*;
use vstd::slice::slice_to_vec;
use vstd::string::StringSliceAdditionalSpecFns;

use crate::cache::ObjectMap;
use crate::object::{
    entry_kind_to_descriptor_type, type_of, Descriptor, DirectoryEntry, ErrorCode, ObjectHash,
    ObjectKind, TreeEntry,
};
use crate::path::{
    component_stack, deep, find_entry, has_slash, is_dot, is_dot_component, is_dot_dot,
    is_dot_dot_component, is_name, lookup, push_components, stack_of, DOT, SLASH,
};
use crate::store::{declared_size, load_blob, load_tree};

verus! {

/// How many symbolic links one resolution may follow.
pub const MAX_SYMLINK_HOPS: u32 = 40;

/// The parent table after stepping from `dir` into `child`. The root never
/// gets a parent.
pub open spec fn record_parent(
    parents: Map<ObjectHash, ObjectHash>,
    root: ObjectHash,
    child: ObjectHash,
    dir: ObjectHash,
) -> Map<ObjectHash, ObjectHash> {
    if child == root {
        parents
    } else {
        parents.insert(child, dir)
    }
}

pub open spec fn is_blob(kind: ObjectKind) -> bool {
    kind == ObjectKind::Blob || kind == ObjectKind::BlobExecutable
}

/// Walks the component stack `stack` (next component last) from `cur`, over
/// the tree listings `trees` and blob contents `blobs`. A tree or blob
/// missing from them is one the store could not deliver. Returns the outcome
/// and the parent table as the walk leaves it.
pub open spec fn walk(
    root: ObjectHash,
    trees: Map<ObjectHash, Seq<TreeEntry>>,
    blobs: Map<ObjectHash, Seq<u8>>,
    parents: Map<ObjectHash, ObjectHash>,
    cur: Descriptor,
    stack: Seq<Seq<u8>>,
    hops: nat,
    follow: bool,
) -> (Result<Descriptor, ErrorCode>, Map<ObjectHash, ObjectHash>)
    decreases hops, stack.len(),
{
    if stack.len() == 0 && !(cur.kind == ObjectKind::Link && follow) {
        (Ok(cur), parents)
    } else if cur.kind == ObjectKind::Link {
        // A link in the middle of a path, or a final link to follow: its
        // text is walked from the directory that holds it.
        if hops == 0 {
            (Err(ErrorCode::Loop), parents)
        } else if !parents.contains_key(cur.id) {
            (Err(ErrorCode::Access), parents)
        } else if !blobs.contains_key(cur.id) {
            (Err(ErrorCode::NoEntry), parents)
        } else if blobs[cur.id].len() > 0 && blobs[cur.id][0] == SLASH {
            (Err(ErrorCode::Access), parents)
        } else {
            walk(
                root,
                trees,
                blobs,
                parents,
                Descriptor { kind: ObjectKind::Tree, id: parents[cur.id] },
                stack + component_stack(blobs[cur.id]),
                (hops - 1) as nat,
                follow,
            )
        }
    } else if is_blob(cur.kind) {
        (Err(ErrorCode::NotDirectory), parents)
    } else {
        let c = stack.last();
        let rest = stack.drop_last();
        if c.len() == 0 || is_dot(c) {
            walk(root, trees, blobs, parents, cur, rest, hops, follow)
        } else if is_dot_dot(c) {
            if parents.contains_key(cur.id) {
                walk(
                    root,
                    trees,
                    blobs,
                    parents,
                    Descriptor { kind: ObjectKind::Tree, id: parents[cur.id] },
                    rest,
                    hops,
                    follow,
                )
            } else {
                (Err(ErrorCode::Access), parents)
            }
        } else if cur.kind == ObjectKind::Commit || !trees.contains_key(cur.id) {
            (Err(ErrorCode::NoEntry), parents)
        } else {
            match lookup(trees[cur.id], c) {
                None => (Err(ErrorCode::NoEntry), parents),
                Some(e) => walk(
                    root,
                    trees,
                    blobs,
                    record_parent(parents, root, e.id, cur.id),
                    Descriptor { kind: e.kind, id: e.id },
                    rest,
                    hops,
                    follow,
                ),
            }
        }
    }
}

/// Resolution of `path` from `base`: absolute paths are refused, `.` is the
/// base itself, anything else is walked component by component.
pub open spec fn resolve(
    root: ObjectHash,
    trees: Map<ObjectHash, Seq<TreeEntry>>,
    blobs: Map<ObjectHash, Seq<u8>>,
    parents: Map<ObjectHash, ObjectHash>,
    base: Descriptor,
    path: Seq<u8>,
    follow: bool,
) -> (Result<Descriptor, ErrorCode>, Map<ObjectHash, ObjectHash>) {
    if path.len() > 0 && path[0] == SLASH {
        (Err(ErrorCode::Access), parents)
    } else if is_dot(path) {
        (Ok(base), parents)
    } else {
        walk(
            root,
            trees,
            blobs,
            parents,
            base,
            component_stack(path),
            MAX_SYMLINK_HOPS as nat,
            follow,
        )
    }
}

/// `path` is a single name that the tree `from` lists in `trees`, and not a
/// link that is to be followed.
pub open spec fn plain_child_path(
    trees: Map<ObjectHash, Seq<TreeEntry>>,
    from: Descriptor,
    path: Seq<u8>,
    follow: bool,
) -> bool {
    &&& from.kind == ObjectKind::Tree
    &&& is_name(path)
    &&& !has_slash(path)
    &&& trees.contains_key(from.id)
    &&& lookup(trees[from.id], path) is Some
    &&& !(lookup(trees[from.id], path)->Some_0.kind == ObjectKind::Link && follow)
}

/// The directory entries that a tree listing shows, in the same order.
pub open spec fn listing_matches(listed: Seq<DirectoryEntry>, entries: Seq<TreeEntry>) -> bool {
    &&& listed.len() == entries.len()
    &&& forall|i: int|
        0 <= i < listed.len() ==> #[trigger] listed[i].type_ == type_of(entries[i].kind)
            && listed[i].name@ == entries[i].name@
}

/// Every key of `a` is in `b` with the same value.
pub open spec fn within<V>(a: Map<ObjectHash, V>, b: Map<ObjectHash, V>) -> bool {
    forall|k: ObjectHash| #[trigger] a.contains_key(k) ==> b.contains_key(k) && a[k] == b[k]
}

proof fn lemma_within_trans<V>(a: Map<ObjectHash, V>, b: Map<ObjectHash, V>, c: Map<ObjectHash, V>)
    requires
        within(a, b),
        within(b, c),
    ensures
        within(a, c),
{
    assert forall|k: ObjectHash| #[trigger] a.contains_key(k) implies c.contains_key(k) && a[k]
        == c[k] by {
        assert(b.contains_key(k));
    }
}

proof fn lemma_stack_of_plain(s: Seq<u8>, tail: Seq<u8>)
    requires
        !has_slash(s),
    ensures
        stack_of(s, tail) == seq![s + tail],
    decreases s.len(),
{
    if s.len() > 0 {
        assert(s.last() == s[s.len() - 1]);
        assert(!has_slash(s.drop_last())) by {
            if has_slash(s.drop_last()) {
                let i = choose|i: int|
                    0 <= i < s.drop_last().len() && s.drop_last()[i] == SLASH;
                assert(s[i] == SLASH);
            }
        }
        lemma_stack_of_plain(s.drop_last(), seq![s.last()] + tail);
        assert(s.drop_last() + (seq![s.last()] + tail) =~= s + tail);
    } else {
        assert(s + tail =~= tail);
    }
}

/// A path without `/` is a single component.
pub proof fn lemma_single_component(s: Seq<u8>)
    requires
        !has_slash(s),
    ensures
        component_stack(s) == seq![s],
{
    lemma_stack_of_plain(s, Seq::empty());
    assert(s + Seq::<u8>::empty() =~= s);
}

/// A name that a tree lists resolves, from that tree, to the kind and hash
/// of its entry there (a link to itself when links are not followed).
pub proof fn lemma_child_resolves(
    root: ObjectHash,
    trees: Map<ObjectHash, Seq<TreeEntry>>,
    blobs: Map<ObjectHash, Seq<u8>>,
    parents: Map<ObjectHash, ObjectHash>,
    dir: Descriptor,
    name: Seq<u8>,
    follow: bool,
)
    requires
        dir.kind == ObjectKind::Tree,
        trees.contains_key(dir.id),
        lookup(trees[dir.id], name) is Some,
        is_name(name),
        !has_slash(name),
        follow ==> lookup(trees[dir.id], name)->Some_0.kind != ObjectKind::Link,
    ensures
        ({
            let e = lookup(trees[dir.id], name)->Some_0;
            resolve(root, trees, blobs, parents, dir, name, follow).0 == Ok::<
                Descriptor,
                ErrorCode,
            >(Descriptor { kind: e.kind, id: e.id })
        }),
{
    let e = lookup(trees[dir.id], name)->Some_0;
    lemma_single_component(name);
    assert(name[0] != SLASH);
    let recorded = record_parent(parents, root, e.id, dir.id);
    let d = Descriptor { kind: e.kind, id: e.id };
    assert(seq![name].drop_last() =~= Seq::<Seq<u8>>::empty());
    assert(walk(root, trees, blobs, recorded, d, Seq::empty(), MAX_SYMLINK_HOPS as nat, follow) == (
    Ok::<Descriptor, ErrorCode>(d), recorded));
    assert(walk(root, trees, blobs, parents, dir, seq![name], MAX_SYMLINK_HOPS as nat, follow)
        == walk(root, trees, blobs, recorded, d, Seq::empty(), MAX_SYMLINK_HOPS as nat, follow));
}

/// A path that starts with `/` is refused with `Access`, from anywhere.
pub proof fn lemma_absolute_path_refused(
    root: ObjectHash,
    trees: Map<ObjectHash, Seq<TreeEntry>>,
    blobs: Map<ObjectHash, Seq<u8>>,
    parents: Map<ObjectHash, ObjectHash>,
    base: Descriptor,
    path: Seq<u8>,
    follow: bool,
)
    requires
        path.len() > 0,
        path[0] == SLASH,
    ensures
        resolve(root, trees, blobs, parents, base, path, follow) == (
        Err::<Descriptor, ErrorCode>(ErrorCode::Access), parents),
{
}

/// `.` resolves to the base itself, whatever its kind, and leaves the
/// parent table alone.
pub proof fn lemma_dot_is_base(
    root: ObjectHash,
    trees: Map<ObjectHash, Seq<TreeEntry>>,
    blobs: Map<ObjectHash, Seq<u8>>,
    parents: Map<ObjectHash, ObjectHash>,
    base: Descriptor,
    follow: bool,
)
    ensures
        resolve(root, trees, blobs, parents, base, seq![DOT], follow) == (
        Ok::<Descriptor, ErrorCode>(base), parents),
{
}

pub struct GitFs {
    repo: gix::Repository,
    root: ObjectHash,
    trees: ObjectMap<Vec<TreeEntry>>,
    blob_contents: ObjectMap<Vec<u8>>,
    parent: ObjectMap<ObjectHash>,
}

impl GitFs {
    pub closed spec fn root(&self) -> ObjectHash {
        self.root
    }

    /// The tree listings fetched so far.
    pub closed spec fn trees(&self) -> Map<ObjectHash, Seq<TreeEntry>> {
        self.trees@.map_values(|v: Vec<TreeEntry>| v@)
    }

    /// The blob contents fetched so far.
    pub closed spec fn blobs(&self) -> Map<ObjectHash, Seq<u8>> {
        self.blob_contents@.map_values(|v: Vec<u8>| v@)
    }

    /// Child hash to the hash of the tree it was last reached from.
    pub closed spec fn parents(&self) -> Map<ObjectHash, ObjectHash> {
        self.parent@
    }

    pub closed spec fn wf(&self) -> bool {
        &&& self.trees.wf()
        &&& self.blob_contents.wf()
        &&& self.parent.wf()
        &&& !self.parent@.contains_key(self.root)
    }

    /// What `self` knows, `earlier` knew too, with the same answers: the
    /// caches only grow and the root stays.
    pub open spec fn extends(&self, earlier: &GitFs) -> bool {
        &&& self.root() == earlier.root()
        &&& within(earlier.trees(), self.trees())
        &&& within(earlier.blobs(), self.blobs())
    }

    /// Growing the caches twice is growing them once.
    pub proof fn lemma_extends_trans(&self, mid: &GitFs, first: &GitFs)
        requires
            self.extends(mid),
            mid.extends(first),
        ensures
            self.extends(first),
    {
        lemma_within_trans(first.trees(), mid.trees(), self.trees());
        lemma_within_trans(first.blobs(), mid.blobs(), self.blobs());
    }

    /// `..` from the root is refused with `Access`: the root never has a
    /// parent, whatever the caches hold.
    pub proof fn lemma_root_dot_dot_refused(
        &self,
        trees: Map<ObjectHash, Seq<TreeEntry>>,
        blobs: Map<ObjectHash, Seq<u8>>,
        follow: bool,
    )
        requires
            self.wf(),
        ensures
            resolve(
                self.root(),
                trees,
                blobs,
                self.parents(),
                Descriptor { kind: ObjectKind::Tree, id: self.root() },
                seq![DOT, DOT],
                follow,
            ).0 == Err::<Descriptor, ErrorCode>(ErrorCode::Access),
    {
        let dd = seq![DOT, DOT];
        assert(!has_slash(dd)) by {
            if has_slash(dd) {
                let i = choose|i: int| 0 <= i < dd.len() && dd[i] == SLASH;
                assert(i == 0 || i == 1);
            }
        }
        lemma_single_component(dd);
        assert(!is_dot(dd)) by {
            if is_dot(dd) {
                assert(dd.len() == seq![DOT].len());
            }
        }
        assert(seq![dd].last() == dd);
    }

    pub fn new(repo: gix::Repository, root: ObjectHash) -> (r: GitFs)
        ensures
            r.wf(),
            r.root() == root,
            r.trees() == Map::<ObjectHash, Seq<TreeEntry>>::empty(),
            r.blobs() == Map::<ObjectHash, Seq<u8>>::empty(),
            r.parents() == Map::<ObjectHash, ObjectHash>::empty(),
    {
        let r = GitFs {
            repo,
            root,
            trees: ObjectMap::new(),
            blob_contents: ObjectMap::new(),
            parent: ObjectMap::new(),
        };
        assert(r.trees() =~= Map::<ObjectHash, Seq<TreeEntry>>::empty());
        assert(r.blobs() =~= Map::<ObjectHash, Seq<u8>>::empty());
        r
    }

    pub fn root_hash(&self) -> (r: ObjectHash)
        ensures
            r == self.root(),
    {
        self.root
    }

    /// Makes sure the listing of tree `id` is cached; false when the store
    /// cannot deliver it.
    fn load_tree_cached(&mut self, id: &ObjectHash) -> (r: bool)
        requires
            old(self).wf(),
        ensures
            final(self).wf(),
            final(self).root() == old(self).root(),
            final(self).blobs() == old(self).blobs(),
            final(self).parents() == old(self).parents(),
            r == final(self).trees().contains_key(*id),
            within(old(self).trees(), final(self).trees()),
            old(self).trees().contains_key(*id) ==> final(self).trees() == old(self).trees(),
            r ==> final(self).trees() == old(self).trees().insert(*id, final(self).trees()[*id]),
            !r ==> final(self).trees() == old(self).trees(),
    {
        if self.trees.get(id).is_some() {
            return true;
        }
        match load_tree(&self.repo, id) {
            Some(entries) => {
                let ghost v = entries@;
                self.trees.insert(*id, entries);
                assert(self.trees() =~= old(self).trees().insert(*id, v));
                true
            },
            None => false,
        }
    }

    /// Follows `path` from `from`, one component at a time. A trailing link
    /// is followed only when `follow_final_symlink` is set.
    pub fn resolve_path(
        &mut self,
        from: Descriptor,
        path: &str,
        follow_final_symlink: bool,
    ) -> (r: Result<Descriptor, ErrorCode>)
        requires
            old(self).wf(),
        ensures
            final(self).wf(),
            final(self).extends(old(self)),
            (r, final(self).parents()) == resolve(
                old(self).root(),
                final(self).trees(),
                final(self).blobs(),
                old(self).parents(),
                from,
                path.spec_bytes(),
                follow_final_symlink,
            ),
            is_dot(path.spec_bytes()) ==> *final(self) == *old(self),
            path.spec_bytes().len() > 0 && path.spec_bytes()[0] == SLASH ==> *final(self)
                == *old(self),
            plain_child_path(final(self).trees(), from, path.spec_bytes(), follow_final_symlink)
                ==> final(self).blobs() == old(self).blobs(),
            r is Ok ==> forall|t: Map<ObjectHash, Seq<TreeEntry>>, b: Map<ObjectHash, Seq<u8>>|
                within(final(self).trees(), t) && within(final(self).blobs(), b) ==> #[trigger] resolve(
                    old(self).root(),
                    t,
                    b,
                    old(self).parents(),
                    from,
                    path.spec_bytes(),
                    follow_final_symlink,
                ) == (r, final(self).parents()),
    {
        let bytes = path.as_bytes();
        if bytes.len() > 0 && bytes[0] == SLASH {
            return Err(ErrorCode::Access);
        }
        if is_dot_component(bytes) {
            return Ok(from);
        }
        let ghost root = self.root();
        let ghost start_parents = self.parents();
        let ghost stack0 = component_stack(bytes@);
        let ghost follow = follow_final_symlink;
        let mut stack: Vec<Vec<u8>> = Vec::new();
        push_components(&mut stack, bytes);
        assert(deep(stack@) =~= stack0);
        let ghost name = bytes@;
        let ghost single = from.kind == ObjectKind::Tree && is_name(name) && !has_slash(name);
        proof {
            if single {
                lemma_single_component(name);
            }
        }
        let mut cur = from;
        let mut hops: u32 = MAX_SYMLINK_HOPS;
        // The steps taken so far only read cached answers, so over any
        // caches that extend the present ones the whole walk ends as the
        // walk of what is left does.
        loop
            invariant
                self.wf(),
                self.extends(old(self)),
                root == old(self).root(),
                start_parents == old(self).parents(),
                stack0 == component_stack(path.spec_bytes()),
                !(path.spec_bytes().len() > 0 && path.spec_bytes()[0] == SLASH),
                !is_dot(path.spec_bytes()),
                follow == follow_final_symlink,
                name == path.spec_bytes(),
                single == (from.kind == ObjectKind::Tree && is_name(name) && !has_slash(name)),
                single ==> stack0 == seq![name],
                // Blobs are only fetched to follow a link, which costs a hop;
                // a single name follows one only when it lists a link.
                hops <= MAX_SYMLINK_HOPS,
                hops == MAX_SYMLINK_HOPS ==> self.blobs() == old(self).blobs(),
                single && hops == MAX_SYMLINK_HOPS ==> (cur == from && deep(stack@) == stack0) || (
                stack@.len() == 0 && self.trees().contains_key(from.id) && lookup(
                    self.trees()[from.id],
                    name,
                ) == Some(
                    TreeEntry {
                        name: lookup(self.trees()[from.id], name)->Some_0.name,
                        kind: cur.kind,
                        id: cur.id,
                    },
                )),
                single && hops < MAX_SYMLINK_HOPS ==> self.trees().contains_key(from.id) && lookup(
                    self.trees()[from.id],
                    name,
                ) is Some && lookup(self.trees()[from.id], name)->Some_0.kind == ObjectKind::Link
                    && follow,
                forall|t: Map<ObjectHash, Seq<TreeEntry>>, b: Map<ObjectHash, Seq<u8>>|
                    within(self.trees(), t) && within(self.blobs(), b) ==> #[trigger] walk(
                        root,
                        t,
                        b,
                        start_parents,
                        from,
                        stack0,
                        MAX_SYMLINK_HOPS as nat,
                        follow,
                    ) == walk(root, t, b, self.parents(), cur, deep(stack@), hops as nat, follow),
            decreases hops, stack@.len(),
        {
            let ghost trees0 = self.trees();
            let ghost blobs0 = self.blobs();
            let ghost parents0 = self.parents();
            let ghost cur0 = cur;
            let ghost stack_before = deep(stack@);
            let ghost hops0 = hops as nat;
            if stack.len() == 0 && !(cur.kind == ObjectKind::Link && follow_final_symlink) {
                assert forall|t: Map<ObjectHash, Seq<TreeEntry>>, b: Map<ObjectHash, Seq<u8>>|
                    within(self.trees(), t) && within(self.blobs(), b) implies walk(
                        root,
                        t,
                        b,
                        start_parents,
                        from,
                        stack0,
                        MAX_SYMLINK_HOPS as nat,
                        follow,
                    ) == (Ok::<Descriptor, ErrorCode>(cur), parents0) by {
                    assert(walk(root, t, b, start_parents, from, stack0, MAX_SYMLINK_HOPS as nat, follow)
                        == walk(root, t, b, parents0, cur0, stack_before, hops0, follow));
                };
                return Ok(cur);
            }
            if cur.kind == ObjectKind::Link {
                if hops == 0 {
                    assert(walk(root, trees0, blobs0, start_parents, from, stack0, MAX_SYMLINK_HOPS as nat, follow)
                        == walk(root, trees0, blobs0, parents0, cur0, stack_before, hops0, follow));
                    return Err(ErrorCode::Loop);
                }
                let dir = match self.parent.get(&cur.id) {
                    Some(d) => *d,
                    None => {
                        assert(walk(root, trees0, blobs0, start_parents, from, stack0, MAX_SYMLINK_HOPS as nat, follow)
                            == walk(root, trees0, blobs0, parents0, cur0, stack_before, hops0, follow));
                        return Err(ErrorCode::Access);
                    },
                };
                if self.read_blob(&cur.id).is_err() {
                    assert(walk(root, trees0, blobs0, start_parents, from, stack0, MAX_SYMLINK_HOPS as nat, follow)
                        == walk(root, trees0, blobs0, parents0, cur0, stack_before, hops0, follow));
                    return Err(ErrorCode::NoEntry);
                }
                let ghost blobs1 = self.blobs();
                let text = match self.blob_contents.get(&cur.id) {
                    Some(t) => t,
                    // `read_blob` has just cached it.
                    None => {
                        return Err(ErrorCode::NoEntry);
                    },
                };
                assert(blobs1[cur0.id] == text@);
                if text.len() > 0 && text[0] == SLASH {
                    assert(walk(root, trees0, blobs1, start_parents, from, stack0, MAX_SYMLINK_HOPS as nat, follow)
                        == walk(root, trees0, blobs1, parents0, cur0, stack_before, hops0, follow));
                    return Err(ErrorCode::Access);
                }
                push_components(&mut stack, text.as_slice());
                cur = Descriptor { kind: ObjectKind::Tree, id: dir };
                hops = hops - 1;
                assert forall|t: Map<ObjectHash, Seq<TreeEntry>>, b: Map<ObjectHash, Seq<u8>>|
                    within(self.trees(), t) && within(self.blobs(), b) implies #[trigger] walk(
                        root,
                        t,
                        b,
                        start_parents,
                        from,
                        stack0,
                        MAX_SYMLINK_HOPS as nat,
                        follow,
                    ) == walk(root, t, b, self.parents(), cur, deep(stack@), hops as nat, follow) by {
                    lemma_within_trans(blobs0, blobs1, b);
                    assert(blobs1.contains_key(cur0.id) && b.contains_key(cur0.id));
                    assert(b[cur0.id] == text@);
                };
            } else if cur.kind == ObjectKind::Blob || cur.kind == ObjectKind::BlobExecutable {
                assert(walk(root, trees0, blobs0, start_parents, from, stack0, MAX_SYMLINK_HOPS as nat, follow)
                    == walk(root, trees0, blobs0, parents0, cur0, stack_before, hops0, follow));
                return Err(ErrorCode::NotDirectory);
            } else {
                let c = match stack.pop() {
                    Some(c) => c,
                    // An empty stack ended the walk above.
                    None => {
                        return Err(ErrorCode::NoEntry);
                    },
                };
                assert(deep(stack@) =~= stack_before.drop_last());
                assert(c@ == stack_before.last());
                if c.len() == 0 || is_dot_component(c.as_slice()) {
                    assert forall|t: Map<ObjectHash, Seq<TreeEntry>>, b: Map<ObjectHash, Seq<u8>>|
                        within(self.trees(), t) && within(self.blobs(), b) implies #[trigger] walk(
                            root,
                            t,
                            b,
                            start_parents,
                            from,
                            stack0,
                            MAX_SYMLINK_HOPS as nat,
                            follow,
                        ) == walk(root, t, b, self.parents(), cur, deep(stack@), hops as nat, follow) by {
                    };
                } else if is_dot_dot_component(c.as_slice()) {
                    match self.parent.get(&cur.id) {
                        Some(d) => {
                            cur = Descriptor { kind: ObjectKind::Tree, id: *d };
                        },
                        None => {
                            assert(walk(root, trees0, blobs0, start_parents, from, stack0, MAX_SYMLINK_HOPS as nat, follow)
                                == walk(root, trees0, blobs0, parents0, cur0, stack_before, hops0, follow));
                            return Err(ErrorCode::Access);
                        },
                    }
                    assert forall|t: Map<ObjectHash, Seq<TreeEntry>>, b: Map<ObjectHash, Seq<u8>>|
                        within(self.trees(), t) && within(self.blobs(), b) implies #[trigger] walk(
                            root,
                            t,
                            b,
                            start_parents,
                            from,
                            stack0,
                            MAX_SYMLINK_HOPS as nat,
                            follow,
                        ) == walk(root, t, b, self.parents(), cur, deep(stack@), hops as nat, follow) by {
                    };
                } else if cur.kind == ObjectKind::Commit {
                    assert(walk(root, trees0, blobs0, start_parents, from, stack0, MAX_SYMLINK_HOPS as nat, follow)
                        == walk(root, trees0, blobs0, parents0, cur0, stack_before, hops0, follow));
                    return Err(ErrorCode::NoEntry);
                } else {
                    if !self.load_tree_cached(&cur.id) {
                        assert(walk(root, trees0, blobs0, start_parents, from, stack0, MAX_SYMLINK_HOPS as nat, follow)
                            == walk(root, trees0, blobs0, parents0, cur0, stack_before, hops0, follow));
                        return Err(ErrorCode::NoEntry);
                    }
                    let ghost trees1 = self.trees();
                    let (kind, id) = match self.trees.get(&cur.id) {
                        Some(entries) => match find_entry(entries, c.as_slice()) {
                            Some(i) => (entries[i].kind, entries[i].id),
                            None => {
                                assert(walk(root, trees1, blobs0, start_parents, from, stack0, MAX_SYMLINK_HOPS as nat, follow)
                                    == walk(root, trees1, blobs0, parents0, cur0, stack_before, hops0, follow));
                                return Err(ErrorCode::NoEntry);
                            },
                        },
                        // `load_tree_cached` has just cached it.
                        None => {
                            return Err(ErrorCode::NoEntry);
                        },
                    };
                    let ghost found = lookup(trees1[cur0.id], c@);
                    assert(found matches Some(e) && e.kind == kind && e.id == id);
                    if !id.same_as(&self.root) {
                        self.parent.insert(id, cur.id);
                    }
                    assert(self.parents() == record_parent(parents0, root, id, cur0.id));
                    cur = Descriptor { kind, id };
                    assert forall|t: Map<ObjectHash, Seq<TreeEntry>>, b: Map<ObjectHash, Seq<u8>>|
                        within(self.trees(), t) && within(self.blobs(), b) implies #[trigger] walk(
                            root,
                            t,
                            b,
                            start_parents,
                            from,
                            stack0,
                            MAX_SYMLINK_HOPS as nat,
                            follow,
                        ) == walk(root, t, b, self.parents(), cur, deep(stack@), hops as nat, follow) by {
                        lemma_within_trans(trees0, trees1, t);
                        assert(trees1.contains_key(cur0.id) && t.contains_key(cur0.id));
                        assert(t[cur0.id] == trees1[cur0.id]);
                    };
                }
            }
        }
    }

    /// Makes sure the content of blob `id` is cached; `NoEntry` when the
    /// store cannot deliver it.
    pub fn read_blob(&mut self, id: &ObjectHash) -> (r: Result<(), ErrorCode>)
        requires
            old(self).wf(),
        ensures
            final(self).wf(),
            final(self).root() == old(self).root(),
            final(self).trees() == old(self).trees(),
            final(self).parents() == old(self).parents(),
            r is Ok == final(self).blobs().contains_key(*id),
            within(old(self).blobs(), final(self).blobs()),
            r matches Err(e) ==> e == ErrorCode::NoEntry,
            old(self).blobs().contains_key(*id) ==> final(self).blobs() == old(self).blobs(),
            r is Ok ==> final(self).blobs() == old(self).blobs().insert(
                *id,
                final(self).blobs()[*id],
            ),
            r is Err ==> final(self).blobs() == old(self).blobs(),
    {
        if self.blob_contents.get(id).is_some() {
            return Ok(());
        }
        match load_blob(&self.repo, id) {
            Some(data) => {
                let ghost v = data@;
                self.blob_contents.insert(*id, data);
                assert(self.blobs() =~= old(self).blobs().insert(*id, v));
                Ok(())
            },
            None => Err(ErrorCode::NoEntry),
        }
    }

    /// The cached content of blob `id`.
    pub fn cached_blob(&self, id: &ObjectHash) -> (r: Option<&Vec<u8>>)
        requires
            self.wf(),
        ensures
            r is None <==> !self.blobs().contains_key(*id),
            r matches Some(v) ==> v@ == self.blobs()[*id],
    {
        self.blob_contents.get(id)
    }

    /// The entries of directory `d` as the guest lists them: a tree's entries
    /// in stored order, none for a submodule.
    pub fn list_directory(&mut self, d: Descriptor) -> (r: Result<Vec<DirectoryEntry>, ErrorCode>)
        requires
            old(self).wf(),
        ensures
            final(self).wf(),
            final(self).extends(old(self)),
            final(self).blobs() == old(self).blobs(),
            final(self).parents() == old(self).parents(),
            match d.kind {
                ObjectKind::Tree => match r {
                    Ok(listed) => final(self).trees().contains_key(d.id) && listing_matches(
                        listed@,
                        final(self).trees()[d.id],
                    ),
                    Err(e) => e == ErrorCode::NoEntry && !final(self).trees().contains_key(d.id),
                },
                ObjectKind::Commit => r matches Ok(listed) && listed@.len() == 0,
                _ => r == Err::<Vec<DirectoryEntry>, ErrorCode>(ErrorCode::NotDirectory),
            },
    {
        match d.kind {
            ObjectKind::Tree => {},
            ObjectKind::Commit => {
                return Ok(Vec::new());
            },
            _ => {
                return Err(ErrorCode::NotDirectory);
            },
        }
        if !self.load_tree_cached(&d.id) {
            return Err(ErrorCode::NoEntry);
        }
        let entries = match self.trees.get(&d.id) {
            Some(entries) => entries,
            None => {
                return Err(ErrorCode::NoEntry);
            },
        };
        let mut listed: Vec<DirectoryEntry> = Vec::new();
        let mut i: usize = 0;
        while i < entries.len()
            invariant
                i <= entries@.len(),
                listing_matches(listed@, entries@.take(i as int)),
            decreases entries@.len() - i,
        {
            let e = &entries[i];
            listed.push(
                DirectoryEntry {
                    type_: entry_kind_to_descriptor_type(e.kind),
                    name: slice_to_vec(e.name.as_slice()),
                },
            );
            i += 1;
            assert(listing_matches(listed@, entries@.take(i as int)));
        }
        assert(entries@.take(i as int) =~= entries@);
        Ok(listed)
    }

    /// The size a stat reports: the declared size of a blob or link, zero for
    /// a tree or submodule.
    pub fn object_size(&self, d: Descriptor) -> (r: Result<u64, ErrorCode>)
        ensures
            (d.kind == ObjectKind::Tree || d.kind == ObjectKind::Commit) ==> r == Ok::<
                u64,
                ErrorCode,
            >(0),
            r matches Err(e) ==> e == ErrorCode::NoEntry,
    {
        match d.kind {
            ObjectKind::Tree | ObjectKind::Commit => Ok(0),
            _ => match declared_size(&self.repo, &d.id) {
                Some(size) => Ok(size),
                None => Err(ErrorCode::NoEntry),
            },
        }
    }
}

} // verus!
