//! The filesystem interface that the guest calls: handles in, handles and
//! values out, every mutating call refused.
use vstd::bytes::{spec_u64_from_le_bytes, u64_from_le_bytes};
use vstd::prelude::*;
use vstd::slice::{slice_subrange, slice_to_vec};
use vstd::string::StringSliceAdditionalSpecFns;
use vstd::utf8::{decode_utf8, valid_utf8};

use crate::engine::{listing_matches, resolve, GitFs};
use crate::object::{
    entry_kind_to_descriptor_type, type_of, Descriptor, DescriptorType, DirectoryEntry, ErrorCode,
    FsError, FsResult, ObjectHash, ObjectKind, Trap,
};
use crate::path::is_dot;
use crate::stream::{read_range, read_window, ReadStream};
use crate::table::{HandleTable, MAX_HANDLES};

verus! {

/// Relies on `String::from_utf8`: it succeeds exactly on valid UTF-8, and
/// then holds the decoded characters.
#[verifier::external_body]
fn utf8_string(bytes: Vec<u8>) -> (r: Option<String>)
    ensures
        r is Some <==> valid_utf8(bytes@),
        r matches Some(s) ==> s@ == decode_utf8(bytes@),
{
    String::from_utf8(bytes).ok()
}

/// The entries of one directory listing that are still to be read. They are
/// stored last-first, so that the next one comes off the end.
pub struct ReaddirIterator {
    pub entries: Vec<DirectoryEntry>,
}

/// The payload that the listing table stores.
pub type MyReaddirIterator = ReaddirIterator;

impl ReaddirIterator {
    /// The entries still to come, next one first.
    pub open spec fn remaining(&self) -> Seq<DirectoryEntry> {
        Seq::new(self.entries@.len(), |i: int| self.entries@[self.entries@.len() - 1 - i])
    }

    /// A listing that hands out `listed` front to back.
    pub fn new(listed: Vec<DirectoryEntry>) -> (r: ReaddirIterator)
        ensures
            r.remaining() == listed@,
    {
        let ghost all = listed@;
        let mut rest = listed;
        let mut entries: Vec<DirectoryEntry> = Vec::new();
        while rest.len() > 0
            invariant
                rest@.len() + entries@.len() == all.len(),
                rest@ == all.take(rest@.len() as int),
                forall|i: int|
                    0 <= i < entries@.len() ==> #[trigger] entries@[i] == all[all.len() - 1 - i],
            decreases rest@.len(),
        {
            match rest.pop() {
                Some(e) => {
                    assert(rest@ =~= all.take(rest@.len() as int));
                    entries.push(e);
                },
                None => {},
            }
        }
        let r = ReaddirIterator { entries };
        assert(r.remaining() =~= all);
        r
    }

    /// The next entry, which is then gone.
    pub fn next_entry(&mut self) -> (r: Option<DirectoryEntry>)
        ensures
            old(self).remaining().len() == 0 ==> r is None && final(self).remaining()
                == old(self).remaining(),
            old(self).remaining().len() > 0 ==> r == Some(old(self).remaining()[0])
                && final(self).remaining() == old(self).remaining().skip(1),
    {
        let r = self.entries.pop();
        proof {
            if old(self).entries@.len() > 0 {
                assert(self.remaining() =~= old(self).remaining().skip(1));
            } else {
                assert(self.remaining() =~= old(self).remaining());
            }
        }
        r
    }
}

/// The open flags that matter to a read-only filesystem.
#[derive(Clone, Copy, Debug, PartialEq, Eq, Structural)]
pub struct OpenFlags {
    pub create: bool,
    pub directory: bool,
    pub exclusive: bool,
    pub truncate: bool,
}

/// What a stat reports. Timestamps are never known.
#[derive(Clone, Copy, Debug, PartialEq, Eq, Structural)]
pub struct DescriptorStat {
    pub type_: DescriptorType,
    pub link_count: u64,
    pub size: u64,
}

/// A fingerprint of an object: the first and second eight bytes of its hash,
/// read little-endian.
#[derive(Clone, Copy, Debug, PartialEq, Eq, Structural)]
pub struct MetadataHashValue {
    pub lower: u64,
    pub upper: u64,
}

pub open spec fn hash_fingerprint(id: ObjectHash) -> MetadataHashValue {
    MetadataHashValue {
        lower: spec_u64_from_le_bytes(id.bytes@.subrange(0, 8)),
        upper: spec_u64_from_le_bytes(id.bytes@.subrange(8, 16)),
    }
}

/// The outcome of an open once the path has resolved: creation is
/// impossible, so an exclusive open always finds the object there, and a
/// directory open wants a tree.
pub open spec fn open_outcome(resolved: Result<Descriptor, ErrorCode>, flags: OpenFlags) -> Result<
    Descriptor,
    ErrorCode,
> {
    match resolved {
        Err(e) => Err(e),
        Ok(d) => if flags.exclusive {
            Err(ErrorCode::Exist)
        } else if flags.directory && d.kind != ObjectKind::Tree {
            Err(ErrorCode::NotDirectory)
        } else {
            Ok(d)
        },
    }
}

pub open spec fn is_stat_of(st: DescriptorStat, d: Descriptor) -> bool {
    &&& st.type_ == type_of(d.kind)
    &&& st.link_count == 1
    &&& (d.kind == ObjectKind::Tree || d.kind == ObjectKind::Commit) ==> st.size == 0
}

/// Handles released before `after` stay released in it, and the counts of
/// handles handed out only grow.
pub open spec fn released_stay_released(before: &WasiState, after: &WasiState) -> bool {
    &&& before.descriptors_minted() <= after.descriptors_minted()
    &&& before.listings_minted() <= after.listings_minted()
    &&& forall|h: u32|
        (h as nat) < before.descriptors_minted() && !before.descriptors().contains_key(h)
            ==> !#[trigger] after.descriptors().contains_key(h)
    &&& forall|h: u32|
        (h as nat) < before.listings_minted() && !before.listings().contains_key(h)
            ==> !#[trigger] after.listings().contains_key(h)
}

/// Resolution of `path` from `base` as a call that took `before` to `after`
/// performed it.
pub open spec fn resolution(
    before: &WasiState,
    after: &WasiState,
    base: Descriptor,
    path: Seq<u8>,
    follow: bool,
) -> (Result<Descriptor, ErrorCode>, Map<ObjectHash, ObjectHash>) {
    resolve(
        before.engine().root(),
        after.engine().trees(),
        after.engine().blobs(),
        before.engine().parents(),
        base,
        path,
        follow,
    )
}

/// Releasing a descriptor handle is final: once released, it is unknown in
/// every later state, so using it or releasing it again faults.
pub proof fn lemma_release_is_final(
    before: &WasiState,
    released: &WasiState,
    later: &WasiState,
    fd: u32,
)
    requires
        before.wf(),
        before.descriptors().contains_key(fd),
        released.descriptors() == before.descriptors().remove(fd),
        released.descriptors_minted() == before.descriptors_minted(),
        released_stay_released(released, later),
    ensures
        !later.descriptors().contains_key(fd),
{
    before.lemma_live_were_minted(fd);
}

/// The state behind the guest's filesystem: the engine, and the tables of
/// open descriptors and directory listings.
pub struct WasiState {
    gitfs: GitFs,
    descriptors: HandleTable<Descriptor>,
    listings: HandleTable<ReaddirIterator>,
}

impl WasiState {
    pub closed spec fn engine(&self) -> GitFs {
        self.gitfs
    }

    /// The live descriptor handles.
    pub closed spec fn descriptors(&self) -> Map<u32, Descriptor> {
        self.descriptors@
    }

    /// The live listing handles, each with the entries it has still to give.
    pub closed spec fn listings(&self) -> Map<u32, Seq<DirectoryEntry>> {
        self.listings@.map_values(|it: ReaddirIterator| it.remaining())
    }

    /// How many descriptor handles were ever handed out.
    pub closed spec fn descriptors_minted(&self) -> nat {
        self.descriptors.minted()
    }

    /// How many listing handles were ever handed out.
    pub closed spec fn listings_minted(&self) -> nat {
        self.listings.minted()
    }

    pub proof fn lemma_live_were_minted(&self, fd: u32)
        requires
            self.descriptors().contains_key(fd),
        ensures
            (fd as nat) < self.descriptors_minted(),
    {
        self.descriptors.lemma_live_were_minted(fd);
    }

    pub closed spec fn wf(&self) -> bool {
        &&& self.gitfs.wf()
        &&& self.descriptors.wf()
        &&& self.listings.wf()
    }

    pub fn new(gitfs: GitFs) -> (r: WasiState)
        requires
            gitfs.wf(),
        ensures
            r.wf(),
            r.engine() == gitfs,
            r.descriptors() == Map::<u32, Descriptor>::empty(),
            r.listings() == Map::<u32, Seq<DirectoryEntry>>::empty(),
            r.descriptors_minted() == 0,
            r.listings_minted() == 0,
    {
        let r = WasiState { gitfs, descriptors: HandleTable::new(), listings: HandleTable::new() };
        assert(r.listings() =~= Map::<u32, Seq<DirectoryEntry>>::empty());
        r
    }

    /// The one preopened directory: a fresh handle on the root tree, at `/`.
    pub fn get_directories(&mut self) -> (r: Result<Vec<(u32, String)>, Trap>)
        requires
            old(self).wf(),
        ensures
            final(self).wf(),
            released_stay_released(old(self), final(self)),
            final(self).engine() == old(self).engine(),
            final(self).listings() == old(self).listings(),
            match r {
                Ok(dirs) => {
                    &&& dirs@.len() == 1
                    &&& dirs@[0].1@ == "/"@
                    &&& !old(self).descriptors().contains_key(dirs@[0].0)
                    &&& final(self).descriptors() == old(self).descriptors().insert(
                        dirs@[0].0,
                        Descriptor { kind: ObjectKind::Tree, id: old(self).engine().root() },
                    )
                },
                Err(e) => e == Trap::TableFull && old(self).descriptors_minted() == MAX_HANDLES
                    && final(self).descriptors() == old(self).descriptors(),
            },
    {
        let root = Descriptor { kind: ObjectKind::Tree, id: self.gitfs.root_hash() };
        let h = self.descriptors.push(root)?;
        let mut dirs: Vec<(u32, String)> = Vec::new();
        dirs.push((h, "/".to_owned()));
        Ok(dirs)
    }

    pub fn get_type(&self, fd: u32) -> (r: Result<DescriptorType, Trap>)
        ensures
            match r {
                Ok(t) => self.descriptors().contains_key(fd) && t == type_of(
                    self.descriptors()[fd].kind,
                ),
                Err(e) => !self.descriptors().contains_key(fd) && e == Trap::UnknownHandle,
            },
    {
        let d = self.descriptors.get(fd)?;
        Ok(entry_kind_to_descriptor_type(d.kind))
    }

    /// Bytes of the file `fd` from `offset`, at most `length` of them, and
    /// whether they reach its end.
    pub fn read(&mut self, fd: u32, length: u64, offset: u64) -> (r: FsResult<(Vec<u8>, bool)>)
        requires
            old(self).wf(),
        ensures
            final(self).wf(),
            released_stay_released(old(self), final(self)),
            final(self).engine().extends(&old(self).engine()),
            final(self).engine().trees() == old(self).engine().trees(),
            final(self).engine().parents() == old(self).engine().parents(),
            final(self).descriptors() == old(self).descriptors(),
            final(self).listings() == old(self).listings(),
            !old(self).descriptors().contains_key(fd) ==> r == Err::<(Vec<u8>, bool), FsError>(
                FsError::Trap(Trap::UnknownHandle),
            ),
            old(self).descriptors().contains_key(fd) ==> {
                let id = old(self).descriptors()[fd].id;
                let blobs = final(self).engine().blobs();
                match r {
                    Ok((data, eof)) => blobs.contains_key(id) && (data@, eof) == read_window(
                        blobs[id],
                        length,
                        offset,
                    ),
                    Err(e) => e == FsError::Code(ErrorCode::NoEntry) && !blobs.contains_key(id),
                }
            },
    {
        let id = match self.descriptors.get(fd) {
            Ok(d) => d.id,
            Err(t) => {
                return Err(FsError::Trap(t));
            },
        };
        if let Err(e) = self.gitfs.read_blob(&id) {
            return Err(FsError::Code(e));
        }
        match self.gitfs.cached_blob(&id) {
            Some(blob) => Ok(read_range(blob.as_slice(), length, offset)),
            None => Err(FsError::Code(ErrorCode::NoEntry)),
        }
    }

    /// A stream over the file `fd`, starting at `offset`.
    pub fn read_via_stream(&mut self, fd: u32, offset: u64) -> (r: FsResult<ReadStream>)
        requires
            old(self).wf(),
        ensures
            final(self).wf(),
            released_stay_released(old(self), final(self)),
            final(self).engine().extends(&old(self).engine()),
            final(self).engine().trees() == old(self).engine().trees(),
            final(self).engine().parents() == old(self).engine().parents(),
            final(self).descriptors() == old(self).descriptors(),
            final(self).listings() == old(self).listings(),
            !old(self).descriptors().contains_key(fd) ==> (r matches Err(e) && e == FsError::Trap(
                Trap::UnknownHandle,
            )),
            old(self).descriptors().contains_key(fd) ==> {
                let id = old(self).descriptors()[fd].id;
                let blobs = final(self).engine().blobs();
                match r {
                    Ok(s) => blobs.contains_key(id) && s.content() == blobs[id] && s.position()
                        == offset,
                    Err(e) => e == FsError::Code(ErrorCode::NoEntry) && !blobs.contains_key(id),
                }
            },
    {
        let id = match self.descriptors.get(fd) {
            Ok(d) => d.id,
            Err(t) => {
                return Err(FsError::Trap(t));
            },
        };
        if let Err(e) = self.gitfs.read_blob(&id) {
            return Err(FsError::Code(e));
        }
        match self.gitfs.cached_blob(&id) {
            Some(blob) => Ok(ReadStream::new(blob.as_slice(), offset)),
            None => Err(FsError::Code(ErrorCode::NoEntry)),
        }
    }

    /// Opens `path` relative to the directory `fd`. Any intent to write,
    /// create or truncate is refused before anything else happens.
    pub fn open_at(
        &mut self,
        fd: u32,
        follow: bool,
        path: &str,
        open_flags: OpenFlags,
        write: bool,
    ) -> (r: FsResult<u32>)
        requires
            old(self).wf(),
        ensures
            final(self).wf(),
            released_stay_released(old(self), final(self)),
            final(self).engine().extends(&old(self).engine()),
            final(self).listings() == old(self).listings(),
            open_flags.create || open_flags.truncate || write ==> r == Err::<u32, FsError>(
                FsError::Code(ErrorCode::ReadOnly),
            ) && *final(self) == *old(self),
            !(open_flags.create || open_flags.truncate || write) && !old(self).descriptors().contains_key(fd) ==> r == Err::<u32, FsError>(
                FsError::Trap(Trap::UnknownHandle),
            ) && *final(self) == *old(self),
            !(open_flags.create || open_flags.truncate || write) && old(self).descriptors().contains_key(fd) ==> {
                let (res, parents) = resolution(
                    old(self),
                    final(self),
                    old(self).descriptors()[fd],
                    path.spec_bytes(),
                    follow,
                );
                &&& final(self).engine().parents() == parents
                &&& is_dot(path.spec_bytes()) ==> final(self).engine() == old(self).engine()
                &&& match open_outcome(res, open_flags) {
                    Err(e) => r == Err::<u32, FsError>(FsError::Code(e)) && final(self).descriptors() == old(self).descriptors(),
                    Ok(d) => match r {
                        Ok(h) => !old(self).descriptors().contains_key(h) && final(self).descriptors() == old(self).descriptors().insert(h, d),
                        Err(e) => e == FsError::Trap(Trap::TableFull) && old(self).descriptors_minted()
                            == MAX_HANDLES && final(self).descriptors()
                            == old(self).descriptors(),
                    },
                }
            },
    {
        if open_flags.create || open_flags.truncate || write {
            return Err(FsError::Code(ErrorCode::ReadOnly));
        }
        let from = match self.descriptors.get(fd) {
            Ok(d) => *d,
            Err(t) => {
                return Err(FsError::Trap(t));
            },
        };
        let d = match self.gitfs.resolve_path(from, path, follow) {
            Ok(d) => d,
            Err(e) => {
                return Err(FsError::Code(e));
            },
        };
        if open_flags.exclusive {
            return Err(FsError::Code(ErrorCode::Exist));
        }
        if open_flags.directory && d.kind != ObjectKind::Tree {
            return Err(FsError::Code(ErrorCode::NotDirectory));
        }
        match self.descriptors.push(d) {
            Ok(h) => Ok(h),
            Err(t) => Err(FsError::Trap(t)),
        }
    }

    /// Starts a listing of the directory `fd`, in the order the store keeps
    /// its entries. A submodule lists as empty; a file is no directory.
    pub fn read_directory(&mut self, fd: u32) -> (r: FsResult<u32>)
        requires
            old(self).wf(),
        ensures
            final(self).wf(),
            released_stay_released(old(self), final(self)),
            final(self).engine().extends(&old(self).engine()),
            final(self).engine().blobs() == old(self).engine().blobs(),
            final(self).engine().parents() == old(self).engine().parents(),
            final(self).descriptors() == old(self).descriptors(),
            !old(self).descriptors().contains_key(fd) ==> r == Err::<u32, FsError>(
                FsError::Trap(Trap::UnknownHandle),
            ),
            match r {
                Ok(h) => {
                    &&& !old(self).listings().contains_key(h)
                    &&& final(self).listings() == old(self).listings().insert(
                        h,
                        final(self).listings()[h],
                    )
                },
                Err(_) => final(self).listings() == old(self).listings(),
            },
            old(self).descriptors().contains_key(fd) ==> {
                let d = old(self).descriptors()[fd];
                let trees = final(self).engine().trees();
                match d.kind {
                    ObjectKind::Tree => match r {
                        Ok(h) => trees.contains_key(d.id) && listing_matches(
                            final(self).listings()[h],
                            trees[d.id],
                        ),
                        Err(FsError::Code(e)) => e == ErrorCode::NoEntry && !trees.contains_key(
                            d.id,
                        ),
                        Err(FsError::Trap(t)) => t == Trap::TableFull && old(self).listings_minted()
                            == MAX_HANDLES,
                    },
                    ObjectKind::Commit => match r {
                        Ok(h) => final(self).listings()[h].len() == 0,
                        Err(e) => e == FsError::Trap(Trap::TableFull) && old(self).listings_minted()
                            == MAX_HANDLES,
                    },
                    _ => r == Err::<u32, FsError>(FsError::Code(ErrorCode::NotDirectory)),
                }
            },
    {
        let d = match self.descriptors.get(fd) {
            Ok(d) => *d,
            Err(t) => {
                return Err(FsError::Trap(t));
            },
        };
        let listed = match self.gitfs.list_directory(d) {
            Ok(listed) => listed,
            Err(e) => {
                return Err(FsError::Code(e));
            },
        };
        let it = ReaddirIterator::new(listed);
        match self.listings.push(it) {
            Ok(h) => {
                assert(self.listings() =~= old(self).listings().insert(h, it.remaining()));
                Ok(h)
            },
            Err(t) => Err(FsError::Trap(t)),
        }
    }

    /// The next entry of listing `stream`, or `None` once it is exhausted.
    pub fn read_directory_entry(&mut self, stream: u32) -> (r: Result<Option<DirectoryEntry>, Trap>)
        requires
            old(self).wf(),
        ensures
            final(self).wf(),
            released_stay_released(old(self), final(self)),
            final(self).engine() == old(self).engine(),
            final(self).descriptors() == old(self).descriptors(),
            !old(self).listings().contains_key(stream) ==> r == Err::<Option<DirectoryEntry>, Trap>(
                Trap::UnknownHandle,
            ) && final(self).listings() == old(self).listings(),
            old(self).listings().contains_key(stream) ==> {
                let rest = old(self).listings()[stream];
                if rest.len() == 0 {
                    r == Ok::<Option<DirectoryEntry>, Trap>(None) && final(self).listings() == old(self).listings()
                } else {
                    r == Ok::<Option<DirectoryEntry>, Trap>(Some(rest[0])) && final(self).listings()
                        == old(self).listings().insert(stream, rest.skip(1))
                }
            },
    {
        let mut it = self.listings.delete(stream)?;
        proof {
            old(self).listings.lemma_live_were_minted(stream);
        }
        let e = it.next_entry();
        self.listings.restore(stream, it);
        proof {
            if old(self).listings()[stream].len() == 0 {
                assert(self.listings() =~= old(self).listings());
            } else {
                assert(self.listings() =~= old(self).listings().insert(
                    stream,
                    old(self).listings()[stream].skip(1),
                ));
            }
        }
        Ok(e)
    }

    /// Type, link count and size of the object `fd`.
    pub fn stat(&self, fd: u32) -> (r: FsResult<DescriptorStat>)
        requires
            self.wf(),
        ensures
            !self.descriptors().contains_key(fd) ==> r == Err::<DescriptorStat, FsError>(
                FsError::Trap(Trap::UnknownHandle),
            ),
            self.descriptors().contains_key(fd) ==> {
                let d = self.descriptors()[fd];
                match r {
                    Ok(st) => is_stat_of(st, d),
                    Err(e) => e == FsError::Code(ErrorCode::NoEntry) && d.kind != ObjectKind::Tree
                        && d.kind != ObjectKind::Commit,
                }
            },
    {
        let d = match self.descriptors.get(fd) {
            Ok(d) => *d,
            Err(t) => {
                return Err(FsError::Trap(t));
            },
        };
        self.stat_of(d)
    }

    fn stat_of(&self, d: Descriptor) -> (r: FsResult<DescriptorStat>)
        ensures
            match r {
                Ok(st) => is_stat_of(st, d),
                Err(e) => e == FsError::Code(ErrorCode::NoEntry) && d.kind != ObjectKind::Tree
                    && d.kind != ObjectKind::Commit,
            },
    {
        let size = match self.gitfs.object_size(d) {
            Ok(size) => size,
            Err(e) => {
                return Err(FsError::Code(e));
            },
        };
        Ok(DescriptorStat { type_: entry_kind_to_descriptor_type(d.kind), link_count: 1, size })
    }

    /// Stat of the object at `path` relative to `fd`.
    pub fn stat_at(&mut self, fd: u32, follow: bool, path: &str) -> (r: FsResult<DescriptorStat>)
        requires
            old(self).wf(),
        ensures
            final(self).wf(),
            released_stay_released(old(self), final(self)),
            final(self).engine().extends(&old(self).engine()),
            final(self).descriptors() == old(self).descriptors(),
            final(self).listings() == old(self).listings(),
            !old(self).descriptors().contains_key(fd) ==> r == Err::<DescriptorStat, FsError>(
                FsError::Trap(Trap::UnknownHandle),
            ),
            old(self).descriptors().contains_key(fd) ==> {
                let (res, parents) = resolution(
                    old(self),
                    final(self),
                    old(self).descriptors()[fd],
                    path.spec_bytes(),
                    follow,
                );
                &&& final(self).engine().parents() == parents
                &&& match res {
                    Err(e) => r == Err::<DescriptorStat, FsError>(FsError::Code(e)),
                    Ok(d) => match r {
                        Ok(st) => is_stat_of(st, d),
                        Err(e) => e == FsError::Code(ErrorCode::NoEntry) && d.kind
                            != ObjectKind::Tree && d.kind != ObjectKind::Commit,
                    },
                }
            },
    {
        let from = match self.descriptors.get(fd) {
            Ok(d) => *d,
            Err(t) => {
                return Err(FsError::Trap(t));
            },
        };
        let d = match self.gitfs.resolve_path(from, path, follow) {
            Ok(d) => d,
            Err(e) => {
                return Err(FsError::Code(e));
            },
        };
        self.stat_of(d)
    }

    /// The target text of the symbolic link at `path` relative to `fd`.
    pub fn readlink_at(&mut self, fd: u32, path: &str) -> (r: FsResult<String>)
        requires
            old(self).wf(),
        ensures
            final(self).wf(),
            released_stay_released(old(self), final(self)),
            final(self).engine().extends(&old(self).engine()),
            final(self).descriptors() == old(self).descriptors(),
            final(self).listings() == old(self).listings(),
            !old(self).descriptors().contains_key(fd) ==> r == Err::<String, FsError>(
                FsError::Trap(Trap::UnknownHandle),
            ),
            old(self).descriptors().contains_key(fd) ==> {
                let (res, parents) = resolution(
                    old(self),
                    final(self),
                    old(self).descriptors()[fd],
                    path.spec_bytes(),
                    false,
                );
                let blobs = final(self).engine().blobs();
                &&& final(self).engine().parents() == parents
                &&& match res {
                    Err(e) => r == Err::<String, FsError>(FsError::Code(e)),
                    Ok(d) => if d.kind != ObjectKind::Link {
                        r == Err::<String, FsError>(FsError::Code(ErrorCode::Invalid))
                    } else if !blobs.contains_key(d.id) {
                        r == Err::<String, FsError>(FsError::Code(ErrorCode::NoEntry))
                    } else if !valid_utf8(blobs[d.id]) {
                        r == Err::<String, FsError>(FsError::Code(ErrorCode::IllegalByteSequence))
                    } else {
                        r matches Ok(text) && text@ == decode_utf8(blobs[d.id])
                    },
                }
            },
    {
        let from = match self.descriptors.get(fd) {
            Ok(d) => *d,
            Err(t) => {
                return Err(FsError::Trap(t));
            },
        };
        let d = match self.gitfs.resolve_path(from, path, false) {
            Ok(d) => d,
            Err(e) => {
                return Err(FsError::Code(e));
            },
        };
        if d.kind != ObjectKind::Link {
            return Err(FsError::Code(ErrorCode::Invalid));
        }
        let ghost mid = self.gitfs;
        if let Err(e) = self.gitfs.read_blob(&d.id) {
            return Err(FsError::Code(e));
        }
        proof {
            self.gitfs.lemma_extends_trans(&mid, &old(self).gitfs);
            assert(resolve(
                old(self).gitfs.root(),
                self.gitfs.trees(),
                self.gitfs.blobs(),
                old(self).gitfs.parents(),
                from,
                path.spec_bytes(),
                false,
            ) == (Ok::<Descriptor, ErrorCode>(d), mid.parents()));
        }
        let bytes = match self.gitfs.cached_blob(&d.id) {
            Some(text) => slice_to_vec(text.as_slice()),
            None => {
                return Err(FsError::Code(ErrorCode::NoEntry));
            },
        };
        match utf8_string(bytes) {
            Some(text) => Ok(text),
            None => Err(FsError::Code(ErrorCode::IllegalByteSequence)),
        }
    }

    /// Whether `fd` and `other` stand for the same object: same kind, same
    /// hash, however each was opened.
    pub fn is_same_object(&self, fd: u32, other: u32) -> (r: Result<bool, Trap>)
        ensures
            self.descriptors().contains_key(fd) && self.descriptors().contains_key(other) ==> r
                == Ok::<bool, Trap>(self.descriptors()[fd] == self.descriptors()[other]),
            !(self.descriptors().contains_key(fd) && self.descriptors().contains_key(other)) ==> r
                == Err::<bool, Trap>(Trap::UnknownHandle),
    {
        let a = self.descriptors.get(fd)?;
        let b = self.descriptors.get(other)?;
        Ok(a.same_object(b))
    }

    /// The fingerprint of the object `fd`.
    pub fn metadata_hash(&self, fd: u32) -> (r: FsResult<MetadataHashValue>)
        ensures
            self.descriptors().contains_key(fd) ==> r == Ok::<MetadataHashValue, FsError>(
                hash_fingerprint(self.descriptors()[fd].id),
            ),
            !self.descriptors().contains_key(fd) ==> r == Err::<MetadataHashValue, FsError>(
                FsError::Trap(Trap::UnknownHandle),
            ),
    {
        match self.descriptors.get(fd) {
            Ok(d) => Ok(fingerprint(&d.id)),
            Err(t) => Err(FsError::Trap(t)),
        }
    }

    /// The fingerprint of the object at `path` relative to `fd`.
    pub fn metadata_hash_at(&mut self, fd: u32, follow: bool, path: &str) -> (r: FsResult<
        MetadataHashValue,
    >)
        requires
            old(self).wf(),
        ensures
            final(self).wf(),
            released_stay_released(old(self), final(self)),
            final(self).engine().extends(&old(self).engine()),
            final(self).descriptors() == old(self).descriptors(),
            final(self).listings() == old(self).listings(),
            !old(self).descriptors().contains_key(fd) ==> r == Err::<MetadataHashValue, FsError>(
                FsError::Trap(Trap::UnknownHandle),
            ),
            old(self).descriptors().contains_key(fd) ==> {
                let (res, parents) = resolution(
                    old(self),
                    final(self),
                    old(self).descriptors()[fd],
                    path.spec_bytes(),
                    follow,
                );
                &&& final(self).engine().parents() == parents
                &&& match res {
                    Err(e) => r == Err::<MetadataHashValue, FsError>(FsError::Code(e)),
                    Ok(d) => r == Ok::<MetadataHashValue, FsError>(hash_fingerprint(d.id)),
                }
            },
    {
        let from = match self.descriptors.get(fd) {
            Ok(d) => *d,
            Err(t) => {
                return Err(FsError::Trap(t));
            },
        };
        match self.gitfs.resolve_path(from, path, follow) {
            Ok(d) => Ok(fingerprint(&d.id)),
            Err(e) => Err(FsError::Code(e)),
        }
    }

    /// Releases the descriptor handle `fd`.
    pub fn drop_descriptor(&mut self, fd: u32) -> (r: Result<(), Trap>)
        requires
            old(self).wf(),
        ensures
            final(self).wf(),
            released_stay_released(old(self), final(self)),
            final(self).engine() == old(self).engine(),
            final(self).listings() == old(self).listings(),
            final(self).descriptors_minted() == old(self).descriptors_minted(),
            final(self).descriptors() == old(self).descriptors().remove(fd),
            r is Ok <==> old(self).descriptors().contains_key(fd),
            r matches Err(t) ==> t == Trap::UnknownHandle,
    {
        let r = self.descriptors.delete(fd);
        proof {
            if r is Err {
                assert(old(self).descriptors().remove(fd) =~= old(self).descriptors());
            }
        }
        match r {
            Ok(_) => Ok(()),
            Err(t) => Err(t),
        }
    }

    /// Releases the listing handle `stream`.
    pub fn drop_directory_entry_stream(&mut self, stream: u32) -> (r: Result<(), Trap>)
        requires
            old(self).wf(),
        ensures
            final(self).wf(),
            released_stay_released(old(self), final(self)),
            final(self).engine() == old(self).engine(),
            final(self).descriptors() == old(self).descriptors(),
            final(self).listings() == old(self).listings().remove(stream),
            r is Ok <==> old(self).listings().contains_key(stream),
            r matches Err(t) ==> t == Trap::UnknownHandle,
    {
        let r = self.listings.delete(stream);
        proof {
            if r is Err {
                assert(old(self).listings().remove(stream) =~= old(self).listings());
            } else {
                assert(self.listings() =~= old(self).listings().remove(stream));
            }
        }
        match r {
            Ok(_) => Ok(()),
            Err(t) => Err(t),
        }
    }
}

/// Every call that would change the filesystem is refused with `ReadOnly`
/// and changes nothing.
impl WasiState {
    /// A stream that writes to `fd`. Refused.
    pub fn write_via_stream(&self, _fd: u32, _offset: u64) -> (r: FsResult<()>)
        ensures
            r == Err::<(), FsError>(FsError::Code(ErrorCode::ReadOnly)),
    {
        Err(FsError::Code(ErrorCode::ReadOnly))
    }

    /// A stream that appends to `fd`. Refused.
    pub fn append_via_stream(&self, _fd: u32) -> (r: FsResult<()>)
        ensures
            r == Err::<(), FsError>(FsError::Code(ErrorCode::ReadOnly)),
    {
        Err(FsError::Code(ErrorCode::ReadOnly))
    }

    /// Truncating or extending `fd`. Refused.
    pub fn set_size(&self, _fd: u32, _size: u64) -> (r: FsResult<()>)
        ensures
            r == Err::<(), FsError>(FsError::Code(ErrorCode::ReadOnly)),
    {
        Err(FsError::Code(ErrorCode::ReadOnly))
    }

    /// Setting the timestamps of `fd`. Refused.
    pub fn set_times(&self, _fd: u32) -> (r: FsResult<()>)
        ensures
            r == Err::<(), FsError>(FsError::Code(ErrorCode::ReadOnly)),
    {
        Err(FsError::Code(ErrorCode::ReadOnly))
    }

    /// Writing bytes into `fd`. Refused.
    pub fn write(&self, _fd: u32, _buffer: &[u8], _offset: u64) -> (r: FsResult<u64>)
        ensures
            r == Err::<u64, FsError>(FsError::Code(ErrorCode::ReadOnly)),
    {
        Err(FsError::Code(ErrorCode::ReadOnly))
    }

    /// Creating a directory. Refused.
    pub fn create_directory_at(&self, _fd: u32, _path: &str) -> (r: FsResult<()>)
        ensures
            r == Err::<(), FsError>(FsError::Code(ErrorCode::ReadOnly)),
    {
        Err(FsError::Code(ErrorCode::ReadOnly))
    }

    /// Setting the timestamps of a path. Refused.
    pub fn set_times_at(&self, _fd: u32, _follow: bool, _path: &str) -> (r: FsResult<()>)
        ensures
            r == Err::<(), FsError>(FsError::Code(ErrorCode::ReadOnly)),
    {
        Err(FsError::Code(ErrorCode::ReadOnly))
    }

    /// Making a hard link. Refused.
    pub fn link_at(&self, _fd: u32, _follow: bool, _old_path: &str, _new_fd: u32, _new_path: &str) -> (r: FsResult<()>)
        ensures
            r == Err::<(), FsError>(FsError::Code(ErrorCode::ReadOnly)),
    {
        Err(FsError::Code(ErrorCode::ReadOnly))
    }

    /// Removing a directory. Refused.
    pub fn remove_directory_at(&self, _fd: u32, _path: &str) -> (r: FsResult<()>)
        ensures
            r == Err::<(), FsError>(FsError::Code(ErrorCode::ReadOnly)),
    {
        Err(FsError::Code(ErrorCode::ReadOnly))
    }

    /// Renaming. Refused.
    pub fn rename_at(&self, _fd: u32, _old_path: &str, _new_fd: u32, _new_path: &str) -> (r: FsResult<()>)
        ensures
            r == Err::<(), FsError>(FsError::Code(ErrorCode::ReadOnly)),
    {
        Err(FsError::Code(ErrorCode::ReadOnly))
    }

    /// Making a symbolic link. Refused.
    pub fn symlink_at(&self, _fd: u32, _old_path: &str, _new_path: &str) -> (r: FsResult<()>)
        ensures
            r == Err::<(), FsError>(FsError::Code(ErrorCode::ReadOnly)),
    {
        Err(FsError::Code(ErrorCode::ReadOnly))
    }

    /// Removing a file. Refused.
    pub fn unlink_file_at(&self, _fd: u32, _path: &str) -> (r: FsResult<()>)
        ensures
            r == Err::<(), FsError>(FsError::Code(ErrorCode::ReadOnly)),
    {
        Err(FsError::Code(ErrorCode::ReadOnly))
    }
}

/// Reads the fingerprint out of the hash bytes.
fn fingerprint(id: &ObjectHash) -> (r: MetadataHashValue)
    ensures
        r == hash_fingerprint(*id),
{
    let b = id.bytes.as_slice();
    proof {
        vstd::array::array_len_matches_n(&id.bytes);
    }
    MetadataHashValue {
        lower: u64_from_le_bytes(slice_subrange(b, 0, 8)),
        upper: u64_from_le_bytes(slice_subrange(b, 8, 16)),
    }
}

} // verus!
