//! Access to the repository's object database through gix. What comes back
//! depends on what is on disk, so these items promise nothing of it; the
//! engine caches each answer and reasons over the cache.
use vstd::prelude::*;
use vstd::slice::slice_to_vec;

use gix::objs::tree::EntryKind;

use crate::object::{ObjectHash, ObjectKind, TreeEntry};

verus! {

#[verifier::external_type_specification]
#[verifier::external_body]
pub struct ExRepository(gix::Repository);

#[verifier::external_type_specification]
#[verifier::external_body]
pub struct ExEntryKind(EntryKind);

/// Relies on gix's `EntryKind`: one variant for each kind of tree entry.
#[verifier::external_body]
fn kind_of(kind: &EntryKind) -> (r: ObjectKind) {
    match kind {
        EntryKind::Tree => ObjectKind::Tree,
        EntryKind::Blob => ObjectKind::Blob,
        EntryKind::BlobExecutable => ObjectKind::BlobExecutable,
        EntryKind::Link => ObjectKind::Link,
        EntryKind::Commit => ObjectKind::Commit,
    }
}

/// Relies on gix's `Repository::find_tree` and `Tree::iter`: the entries of
/// tree `id` in stored order as name, kind and hash, or `None` when the
/// object is missing, is not a tree, or holds an entry that does not decode.
#[verifier::external_body]
fn read_tree(repo: &gix::Repository, id: &ObjectHash) -> (r: Option<
    Vec<(Vec<u8>, EntryKind, ObjectHash)>,
>) {
    let tree = repo.find_tree(gix::ObjectId::from(id.bytes)).ok()?;
    let mut entries = Vec::new();
    for entry in tree.iter() {
        let entry = entry.ok()?;
        let bytes: [u8; 20] = entry.oid().as_bytes().try_into().ok()?;
        entries.push((entry.filename().to_vec(), entry.kind(), ObjectHash { bytes }));
    }
    Some(entries)
}

/// The entries of tree `id`, as the store lists them.
pub(crate) fn load_tree(repo: &gix::Repository, id: &ObjectHash) -> (r: Option<Vec<TreeEntry>>) {
    let raw = read_tree(repo, id)?;
    let mut entries: Vec<TreeEntry> = Vec::new();
    let mut i: usize = 0;
    while i < raw.len()
        invariant
            i <= raw@.len(),
        decreases raw@.len() - i,
    {
        let (name, kind, hash) = &raw[i];
        entries.push(TreeEntry { name: slice_to_vec(name.as_slice()), kind: kind_of(kind), id: *hash });
        i += 1;
    }
    Some(entries)
}

/// Relies on gix's `Repository::find_blob` and `Blob::take_data`: the full
/// content of blob `id`, or `None` when it is missing or not a blob.
#[verifier::external_body]
pub(crate) fn load_blob(repo: &gix::Repository, id: &ObjectHash) -> (r: Option<Vec<u8>>) {
    let mut blob = repo.find_blob(gix::ObjectId::from(id.bytes)).ok()?;
    Some(blob.take_data())
}

/// Relies on gix's `Repository::find_header`: the size that the object's
/// header declares, or `None` when the object is missing.
#[verifier::external_body]
pub(crate) fn declared_size(repo: &gix::Repository, id: &ObjectHash) -> (r: Option<u64>) {
    Some(repo.find_header(gix::ObjectId::from(id.bytes)).ok()?.size())
}

} // verus!
