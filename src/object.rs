//! The values that the filesystem hands around: object identities, kinds,
//! descriptors, directory entries and the error vocabulary.
use vstd::prelude::*;

verus! {

/// Number of bytes in an object's content hash.
pub const HASH_LEN: usize = 20;

/// The content-derived identity of an object in the repository.
#[derive(Clone, Copy, Debug, PartialEq, Eq)]
pub struct ObjectHash {
    pub bytes: [u8; 20],
}

impl ObjectHash {
    pub fn new(bytes: [u8; 20]) -> (r: ObjectHash)
        ensures
            r.bytes == bytes,
    {
        ObjectHash { bytes }
    }

    /// Byte-wise comparison of two hashes.
    pub fn same_as(&self, other: &ObjectHash) -> (r: bool)
        ensures
            r == (*self == *other),
    {
        let mut i: usize = 0;
        while i < HASH_LEN
            invariant
                i <= HASH_LEN,
                forall|j: int| 0 <= j < i ==> self.bytes@[j] == other.bytes@[j],
            decreases HASH_LEN - i,
        {
            if self.bytes[i] != other.bytes[i] {
                return false;
            }
            i += 1;
        }
        proof {
            assert(self.bytes@ =~= other.bytes@);
            vstd::array::axiom_array_ext_equal(self.bytes, other.bytes);
        }
        true
    }
}

/// What a tree entry names: a subtree, a plain or executable file, a
/// symbolic link, or a submodule commit.
#[derive(Clone, Copy, Debug, PartialEq, Eq, Structural)]
pub enum ObjectKind {
    Tree,
    Blob,
    BlobExecutable,
    Link,
    Commit,
}

/// The file type that the guest sees for an object.
#[derive(Clone, Copy, Debug, PartialEq, Eq, Structural)]
pub enum DescriptorType {
    Directory,
    RegularFile,
    SymbolicLink,
}

/// Trees and submodules are directories, blobs are regular files, links are
/// symbolic links.
pub open spec fn type_of(kind: ObjectKind) -> DescriptorType {
    match kind {
        ObjectKind::Tree => DescriptorType::Directory,
        ObjectKind::Blob => DescriptorType::RegularFile,
        ObjectKind::BlobExecutable => DescriptorType::RegularFile,
        ObjectKind::Link => DescriptorType::SymbolicLink,
        ObjectKind::Commit => DescriptorType::Directory,
    }
}

pub fn entry_kind_to_descriptor_type(kind: ObjectKind) -> (r: DescriptorType)
    ensures
        r == type_of(kind),
{
    match kind {
        ObjectKind::Tree => DescriptorType::Directory,
        ObjectKind::Blob | ObjectKind::BlobExecutable => DescriptorType::RegularFile,
        ObjectKind::Link => DescriptorType::SymbolicLink,
        ObjectKind::Commit => DescriptorType::Directory,
    }
}

/// A resolved filesystem object: its kind and its content hash.
#[derive(Clone, Copy, Debug, PartialEq, Eq)]
pub struct Descriptor {
    pub kind: ObjectKind,
    pub id: ObjectHash,
}

/// The payload that the descriptor table stores.
pub type MyDescriptor = Descriptor;

impl Descriptor {
    /// Structural equality: same kind and same hash.
    pub fn same_object(&self, other: &Descriptor) -> (r: bool)
        ensures
            r == (*self == *other),
    {
        self.kind == other.kind && self.id.same_as(&other.id)
    }
}

/// One entry of a tree as the object store lists it.
#[derive(Clone, Debug, PartialEq, Eq)]
pub struct TreeEntry {
    pub name: Vec<u8>,
    pub kind: ObjectKind,
    pub id: ObjectHash,
}

/// One entry of a directory listing as the guest sees it.
#[derive(Clone, Debug, PartialEq, Eq)]
pub struct DirectoryEntry {
    pub type_: DescriptorType,
    pub name: Vec<u8>,
}

/// The errors that a guest can recover from.
#[derive(Clone, Copy, Debug, PartialEq, Eq, Structural)]
pub enum ErrorCode {
    Access,
    NoEntry,
    NotDirectory,
    Exist,
    ReadOnly,
    Invalid,
    IllegalByteSequence,
    Loop,
}

/// Faults of the host itself: a handle that the adapter never minted or
/// already released, or a table that has run out of handles.
#[derive(Clone, Copy, Debug, PartialEq, Eq, Structural)]
pub enum Trap {
    UnknownHandle,
    TableFull,
}

/// Either a guest-visible error code or a host fault.
#[derive(Clone, Copy, Debug, PartialEq, Eq, Structural)]
pub enum FsError {
    Code(ErrorCode),
    Trap(Trap),
}

pub type FsResult<T> = Result<T, FsError>;

} // verus!
