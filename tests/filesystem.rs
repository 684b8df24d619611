use gitfs::{
    Descriptor, DescriptorType, DirectoryEntry, ErrorCode, FsError, GitFs, ObjectHash, ObjectKind,
    OpenFlags, StreamClosed, Trap, WasiState,
};
use gix::objs::tree::{Entry, EntryKind};

fn repository(name: &str) -> gix::Repository {
    let mut failures = Vec::new();
    for dir in [format!("/tmp/gitfs-test-{name}"), format!("gitfs-test-{name}")] {
        match gix::init_bare(&dir) {
            Ok(repo) => return repo.with_object_memory(),
            Err(e) => failures.push(format!("{e:?}")),
        }
        match gix::open(&dir) {
            Ok(repo) => return repo.with_object_memory(),
            Err(e) => failures.push(format!("{e}")),
        }
    }
    panic!("no test repository: {failures:?}")
}

fn hash(id: gix::ObjectId) -> ObjectHash {
    ObjectHash::new(id.as_bytes().try_into().expect("sha1 digest"))
}

fn entry(name: &str, kind: EntryKind, oid: gix::ObjectId) -> Entry {
    Entry { mode: kind.into(), filename: name.into(), oid }
}

fn blob(repo: &gix::Repository, data: &[u8]) -> gix::ObjectId {
    repo.write_blob(data).expect("blob").detach()
}

fn tree(repo: &gix::Repository, entries: Vec<Entry>) -> gix::ObjectId {
    repo.write_object(gix::objs::Tree { entries }).expect("tree").detach()
}

struct Fixture {
    state: WasiState,
    root_fd: u32,
    root: ObjectHash,
    hello: ObjectHash,
    world: ObjectHash,
    dir: ObjectHash,
}

/// Root holds `a.txt` = "hello" and `dir`, which holds `b.txt` = "world".
/// Returns the hashes of root, `a.txt`, `b.txt` and `dir`.
fn basic_objects(repo: &gix::Repository) -> [gix::ObjectId; 4] {
    let hello = blob(repo, b"hello");
    let world = blob(repo, b"world");
    let dir = tree(repo, vec![entry("b.txt", EntryKind::Blob, world)]);
    let root = tree(
        repo,
        vec![entry("a.txt", EntryKind::Blob, hello), entry("dir", EntryKind::Tree, dir)],
    );
    [root, hello, world, dir]
}

fn basic(name: &str) -> Fixture {
    let repo = repository(name);
    let [root, hello, world, dir] = basic_objects(&repo);
    fixture(repo, root, hello, world, dir)
}

/// `basic`, plus links and a submodule: `abs` -> "/etc/passwd", `bad` holds
/// bytes that are not UTF-8, `dirlink` -> "dir", `link` -> "dir/b.txt",
/// `loop` -> "loop", `sub` is a submodule, and `dir/up` -> "../a.txt".
fn rich(name: &str) -> Fixture {
    let repo = repository(name);
    let hello = blob(&repo, b"hello");
    let world = blob(&repo, b"world");
    let up = blob(&repo, b"../a.txt");
    let dir = tree(
        &repo,
        vec![entry("b.txt", EntryKind::Blob, world), entry("up", EntryKind::Link, up)],
    );
    let root = tree(
        &repo,
        vec![
            entry("a.txt", EntryKind::Blob, hello),
            entry("abs", EntryKind::Link, blob(&repo, b"/etc/passwd")),
            entry("bad", EntryKind::Link, blob(&repo, &[0xff, 0xfe])),
            entry("dir", EntryKind::Tree, dir),
            entry("dirlink", EntryKind::Link, blob(&repo, b"dir")),
            entry("link", EntryKind::Link, blob(&repo, b"dir/b.txt")),
            entry("loop", EntryKind::Link, blob(&repo, b"loop")),
            entry("sub", EntryKind::Commit, hello),
        ],
    );
    fixture(repo, root, hello, world, dir)
}

fn fixture(
    repo: gix::Repository,
    root: gix::ObjectId,
    hello: gix::ObjectId,
    world: gix::ObjectId,
    dir: gix::ObjectId,
) -> Fixture {
    let mut state = WasiState::new(GitFs::new(repo, hash(root)));
    let dirs = state.get_directories().expect("preopen");
    assert_eq!(dirs.len(), 1);
    assert_eq!(dirs[0].1, "/");
    Fixture {
        state,
        root_fd: dirs[0].0,
        root: hash(root),
        hello: hash(hello),
        world: hash(world),
        dir: hash(dir),
    }
}

fn plain() -> OpenFlags {
    OpenFlags { create: false, directory: false, exclusive: false, truncate: false }
}

fn code(e: ErrorCode) -> FsError {
    FsError::Code(e)
}

fn open(f: &mut Fixture, path: &str) -> Result<u32, FsError> {
    f.state.open_at(f.root_fd, false, path, plain(), false)
}

fn listing(f: &mut Fixture, fd: u32) -> Vec<DirectoryEntry> {
    let stream = f.state.read_directory(fd).expect("listing");
    let mut out = Vec::new();
    while let Some(e) = f.state.read_directory_entry(stream).expect("live listing") {
        out.push(e);
    }
    assert_eq!(f.state.read_directory_entry(stream), Ok(None));
    out
}

#[test]
fn scenario_open_and_read_file() {
    let mut f = basic("scenario_open_and_read_file");
    let fd = open(&mut f, "a.txt").expect("a.txt opens");
    assert_eq!(f.state.get_type(fd), Ok(DescriptorType::RegularFile));
    assert_eq!(f.state.read(fd, 100, 0), Ok((b"hello".to_vec(), true)));
    assert_eq!(f.state.read(fd, 2, 0), Ok((b"he".to_vec(), false)));
    assert_eq!(f.state.read(fd, 10, 2), Ok((b"llo".to_vec(), true)));
}

#[test]
fn scenario_nested_and_missing_paths() {
    let mut f = basic("scenario_nested_and_missing_paths");
    let fd = open(&mut f, "dir/b.txt").expect("dir/b.txt opens");
    assert_eq!(f.state.read(fd, 100, 0), Ok((b"world".to_vec(), true)));
    assert_eq!(open(&mut f, "dir/missing.txt"), Err(code(ErrorCode::NoEntry)));
}

#[test]
fn scenario_root_listing() {
    let mut f = basic("scenario_root_listing");
    let root_fd = f.root_fd;
    let entries = listing(&mut f, root_fd);
    assert_eq!(
        entries,
        vec![
            DirectoryEntry { type_: DescriptorType::RegularFile, name: b"a.txt".to_vec() },
            DirectoryEntry { type_: DescriptorType::Directory, name: b"dir".to_vec() },
        ]
    );
}

#[test]
fn scenario_create_is_read_only() {
    let mut f = basic("scenario_create_is_read_only");
    let flags = OpenFlags { create: true, ..plain() };
    assert_eq!(f.state.open_at(f.root_fd, false, "a.txt", flags, false), Err(code(ErrorCode::ReadOnly)));
    let flags = OpenFlags { truncate: true, ..plain() };
    assert_eq!(f.state.open_at(f.root_fd, false, "a.txt", flags, false), Err(code(ErrorCode::ReadOnly)));
    assert_eq!(f.state.open_at(f.root_fd, false, "a.txt", plain(), true), Err(code(ErrorCode::ReadOnly)));
}

#[test]
fn scenario_two_opens_are_the_same_object() {
    let mut f = basic("scenario_two_opens_are_the_same_object");
    let a = open(&mut f, "a.txt").unwrap();
    let b = open(&mut f, "a.txt").unwrap();
    assert_ne!(a, b);
    assert_eq!(f.state.is_same_object(a, b), Ok(true));
    assert_eq!(f.state.metadata_hash(a), f.state.metadata_hash(b));
    let d = open(&mut f, "dir").unwrap();
    assert_eq!(f.state.is_same_object(a, d), Ok(false));
    assert_ne!(f.state.metadata_hash(a), f.state.metadata_hash(d));
}

#[test]
fn metadata_hash_is_the_hash_halves() {
    let mut f = basic("metadata_hash_is_the_hash_halves");
    let a = open(&mut f, "a.txt").unwrap();
    let bytes = f.hello.bytes;
    let lower = u64::from_le_bytes(bytes[0..8].try_into().unwrap());
    let upper = u64::from_le_bytes(bytes[8..16].try_into().unwrap());
    let h = f.state.metadata_hash(a).unwrap();
    assert_eq!((h.lower, h.upper), (lower, upper));
    let at = f.state.metadata_hash_at(f.root_fd, false, "dir/b.txt").unwrap();
    let w = f.world.bytes;
    assert_eq!(at.lower, u64::from_le_bytes(w[0..8].try_into().unwrap()));
    assert_eq!(at.upper, u64::from_le_bytes(w[8..16].try_into().unwrap()));
    assert_eq!(f.state.metadata_hash_at(f.root_fd, false, "nope"), Err(code(ErrorCode::NoEntry)));
}

#[test]
fn child_resolves_to_its_entry() {
    let repo = repository("child_resolves_to_its_entry");
    let [root, hello, world, dir] = basic_objects(&repo).map(hash);
    let mut fs = GitFs::new(repo, root);
    let root = Descriptor { kind: ObjectKind::Tree, id: root };
    assert_eq!(fs.resolve_path(root, "a.txt", false), Ok(Descriptor { kind: ObjectKind::Blob, id: hello }));
    assert_eq!(fs.resolve_path(root, "dir", true), Ok(Descriptor { kind: ObjectKind::Tree, id: dir }));
    let dir = Descriptor { kind: ObjectKind::Tree, id: dir };
    assert_eq!(fs.resolve_path(dir, "b.txt", false), Ok(Descriptor { kind: ObjectKind::Blob, id: world }));
    assert_eq!(fs.resolve_path(dir, "c.txt", false), Err(ErrorCode::NoEntry));
}

#[test]
fn absolute_paths_are_refused() {
    let mut f = basic("absolute_paths_are_refused");
    assert_eq!(open(&mut f, "/a.txt"), Err(code(ErrorCode::Access)));
    assert_eq!(open(&mut f, "/"), Err(code(ErrorCode::Access)));
    let d = open(&mut f, "dir").unwrap();
    assert_eq!(f.state.open_at(d, false, "/anything", plain(), false), Err(code(ErrorCode::Access)));
}

#[test]
fn dot_dot_at_root_is_refused() {
    let mut f = basic("dot_dot_at_root_is_refused");
    assert_eq!(open(&mut f, ".."), Err(code(ErrorCode::Access)));
    assert_eq!(open(&mut f, "./.."), Err(code(ErrorCode::Access)));
    assert_eq!(open(&mut f, "dir/../.."), Err(code(ErrorCode::Access)));
}

#[test]
fn dot_dot_returns_to_the_parent() {
    let mut f = basic("dot_dot_returns_to_the_parent");
    let fd = open(&mut f, "dir/../a.txt").unwrap();
    assert_eq!(f.state.read(fd, 100, 0), Ok((b"hello".to_vec(), true)));
    let back = open(&mut f, "dir/..").unwrap();
    assert_eq!(f.state.is_same_object(back, f.root_fd), Ok(true));
}

#[test]
fn dot_is_the_base_itself() {
    let mut f = basic("dot_is_the_base_itself");
    let a = open(&mut f, "a.txt").unwrap();
    let again = f.state.open_at(a, false, ".", plain(), false).unwrap();
    assert_eq!(f.state.is_same_object(a, again), Ok(true));
    let root_again = open(&mut f, ".").unwrap();
    assert_eq!(f.state.is_same_object(root_again, f.root_fd), Ok(true));
    let repo = repository("dot_is_the_base_itself");
    let mut fs = GitFs::new(repo, f.root);
    let b = Descriptor { kind: ObjectKind::Blob, id: f.hello };
    assert_eq!(fs.resolve_path(b, ".", false), Ok(b));
    let l = Descriptor { kind: ObjectKind::Link, id: f.world };
    assert_eq!(fs.resolve_path(l, ".", true), Ok(l));
}

#[test]
fn empty_components_are_skipped() {
    let mut f = basic("empty_components_are_skipped");
    let fd = open(&mut f, "dir//./b.txt").unwrap();
    assert_eq!(f.state.read(fd, 5, 0), Ok((b"world".to_vec(), true)));
    let d = open(&mut f, "dir/").unwrap();
    assert_eq!(f.state.get_type(d), Ok(DescriptorType::Directory));
}

#[test]
fn file_is_no_directory() {
    let mut f = basic("file_is_no_directory");
    assert_eq!(open(&mut f, "a.txt/x"), Err(code(ErrorCode::NotDirectory)));
    let flags = OpenFlags { directory: true, ..plain() };
    assert_eq!(f.state.open_at(f.root_fd, false, "a.txt", flags, false), Err(code(ErrorCode::NotDirectory)));
    assert!(f.state.open_at(f.root_fd, false, "dir", flags, false).is_ok());
    let a = open(&mut f, "a.txt").unwrap();
    assert_eq!(f.state.read_directory(a), Err(code(ErrorCode::NotDirectory)));
}

#[test]
fn exclusive_open_finds_it_there() {
    let mut f = basic("exclusive_open_finds_it_there");
    let flags = OpenFlags { exclusive: true, ..plain() };
    assert_eq!(f.state.open_at(f.root_fd, false, "a.txt", flags, false), Err(code(ErrorCode::Exist)));
    assert_eq!(f.state.open_at(f.root_fd, false, "none", flags, false), Err(code(ErrorCode::NoEntry)));
}

#[test]
fn read_past_the_end() {
    let mut f = basic("read_past_the_end");
    let fd = open(&mut f, "a.txt").unwrap();
    assert_eq!(f.state.read(fd, 10, 5), Ok((Vec::new(), true)));
    assert_eq!(f.state.read(fd, 10, 99), Ok((Vec::new(), true)));
    assert_eq!(f.state.read(fd, 0, 0), Ok((Vec::new(), false)));
    assert_eq!(f.state.read(fd, 4, 1), Ok((b"ello".to_vec(), true)));
}

#[test]
fn stream_reads_and_closes() {
    let mut f = basic("stream_reads_and_closes");
    let fd = open(&mut f, "a.txt").unwrap();
    let mut s = f.state.read_via_stream(fd, 1).unwrap();
    assert_eq!(s.read(2).unwrap().as_ref(), b"el");
    assert_eq!(s.read(10).unwrap().as_ref(), b"lo");
    assert_eq!(s.read(10), Err(StreamClosed::Closed));
    let mut other = f.state.read_via_stream(fd, 0).unwrap();
    assert_eq!(other.read(5).unwrap().as_ref(), b"hello");
    let mut past = f.state.read_via_stream(fd, 7).unwrap();
    assert_eq!(past.read(1), Err(StreamClosed::Closed));
}

#[test]
fn stat_reports_kind_size_and_one_link() {
    let mut f = basic("stat_reports_kind_size_and_one_link");
    let a = open(&mut f, "a.txt").unwrap();
    let st = f.state.stat(a).unwrap();
    assert_eq!((st.type_, st.link_count, st.size), (DescriptorType::RegularFile, 1, 5));
    let st = f.state.stat(f.root_fd).unwrap();
    assert_eq!((st.type_, st.link_count, st.size), (DescriptorType::Directory, 1, 0));
    let st = f.state.stat_at(f.root_fd, false, "dir/b.txt").unwrap();
    assert_eq!(st.size, 5);
    assert_eq!(f.state.stat_at(f.root_fd, false, "dir/x"), Err(code(ErrorCode::NoEntry)));
}

#[test]
fn released_handles_fault() {
    let mut f = basic("released_handles_fault");
    let a = open(&mut f, "a.txt").unwrap();
    assert_eq!(f.state.drop_descriptor(a), Ok(()));
    assert_eq!(f.state.drop_descriptor(a), Err(Trap::UnknownHandle));
    assert_eq!(f.state.read(a, 1, 0), Err(FsError::Trap(Trap::UnknownHandle)));
    assert_eq!(f.state.get_type(a), Err(Trap::UnknownHandle));
    assert_eq!(f.state.open_at(a, false, ".", plain(), false), Err(FsError::Trap(Trap::UnknownHandle)));
    let b = open(&mut f, "a.txt").unwrap();
    assert_ne!(a, b);
    let root_fd = f.root_fd;
    let stream = f.state.read_directory(root_fd).unwrap();
    assert_eq!(f.state.drop_directory_entry_stream(stream), Ok(()));
    assert_eq!(f.state.read_directory_entry(stream), Err(Trap::UnknownHandle));
    assert_eq!(f.state.drop_directory_entry_stream(stream), Err(Trap::UnknownHandle));
}

#[test]
fn unknown_handles_fault() {
    let mut f = basic("unknown_handles_fault");
    assert_eq!(f.state.get_type(77), Err(Trap::UnknownHandle));
    assert_eq!(f.state.stat(77), Err(FsError::Trap(Trap::UnknownHandle)));
    assert_eq!(f.state.is_same_object(f.root_fd, 77), Err(Trap::UnknownHandle));
    assert_eq!(f.state.read_directory_entry(0), Err(Trap::UnknownHandle));
}

#[test]
fn mutations_are_refused() {
    let f = basic("mutations_are_refused");
    let ro = Err(code(ErrorCode::ReadOnly));
    let fd = f.root_fd;
    assert_eq!(f.state.write_via_stream(fd, 0), ro);
    assert_eq!(f.state.append_via_stream(fd), ro);
    assert_eq!(f.state.set_size(fd, 0), ro);
    assert_eq!(f.state.set_times(fd), ro);
    assert_eq!(f.state.write(fd, b"x", 0), Err(code(ErrorCode::ReadOnly)));
    assert_eq!(f.state.create_directory_at(fd, "d"), ro);
    assert_eq!(f.state.set_times_at(fd, false, "a.txt"), ro);
    assert_eq!(f.state.link_at(fd, false, "a.txt", fd, "b"), ro);
    assert_eq!(f.state.remove_directory_at(fd, "dir"), ro);
    assert_eq!(f.state.rename_at(fd, "a.txt", fd, "b"), ro);
    assert_eq!(f.state.symlink_at(fd, "a.txt", "b"), ro);
    assert_eq!(f.state.unlink_file_at(fd, "a.txt"), ro);
}

#[test]
fn links_are_followed_when_asked() {
    let mut f = rich("links_are_followed_when_asked");
    let followed = f.state.open_at(f.root_fd, true, "link", plain(), false).unwrap();
    assert_eq!(f.state.read(followed, 100, 0), Ok((b"world".to_vec(), true)));
    let kept = f.state.open_at(f.root_fd, false, "link", plain(), false).unwrap();
    assert_eq!(f.state.get_type(kept), Ok(DescriptorType::SymbolicLink));
    assert_eq!(f.state.read(kept, 100, 0), Ok((b"dir/b.txt".to_vec(), true)));
    let up = f.state.open_at(f.root_fd, true, "dir/up", plain(), false).unwrap();
    assert_eq!(f.state.read(up, 100, 0), Ok((b"hello".to_vec(), true)));
}

#[test]
fn link_in_the_middle_is_walked() {
    let mut f = rich("link_in_the_middle_is_walked");
    let fd = f.state.open_at(f.root_fd, false, "dir/up/../dir/b.txt", plain(), false);
    assert_eq!(fd, Err(code(ErrorCode::NotDirectory)));
    let st = f.state.stat_at(f.root_fd, false, "link").unwrap();
    assert_eq!((st.type_, st.size), (DescriptorType::SymbolicLink, 9));
    let fd = f.state.open_at(f.root_fd, false, "dirlink/b.txt", plain(), false).unwrap();
    assert_eq!(f.state.read(fd, 100, 0), Ok((b"world".to_vec(), true)));
    let d = f.state.open_at(f.root_fd, true, "dirlink", plain(), false).unwrap();
    assert_eq!(f.state.get_type(d), Ok(DescriptorType::Directory));
}

#[test]
fn link_cycles_are_cut() {
    let mut f = rich("link_cycles_are_cut");
    assert_eq!(f.state.open_at(f.root_fd, true, "loop", plain(), false), Err(code(ErrorCode::Loop)));
    assert_eq!(open(&mut f, "loop/x"), Err(code(ErrorCode::Loop)));
    assert!(open(&mut f, "loop").is_ok());
}

#[test]
fn absolute_link_is_refused() {
    let mut f = rich("absolute_link_is_refused");
    assert_eq!(f.state.open_at(f.root_fd, true, "abs", plain(), false), Err(code(ErrorCode::Access)));
}

#[test]
fn readlink_gives_the_target_text() {
    let mut f = rich("readlink_gives_the_target_text");
    assert_eq!(f.state.readlink_at(f.root_fd, "link"), Ok("dir/b.txt".to_string()));
    assert_eq!(f.state.readlink_at(f.root_fd, "dir/up"), Ok("../a.txt".to_string()));
    assert_eq!(f.state.readlink_at(f.root_fd, "a.txt"), Err(code(ErrorCode::Invalid)));
    assert_eq!(f.state.readlink_at(f.root_fd, "bad"), Err(code(ErrorCode::IllegalByteSequence)));
    assert_eq!(f.state.readlink_at(f.root_fd, "gone"), Err(code(ErrorCode::NoEntry)));
}

#[test]
fn submodule_is_an_empty_directory() {
    let mut f = rich("submodule_is_an_empty_directory");
    let sub = open(&mut f, "sub").unwrap();
    assert_eq!(f.state.get_type(sub), Ok(DescriptorType::Directory));
    assert_eq!(listing(&mut f, sub), Vec::new());
    assert_eq!(open(&mut f, "sub/x"), Err(code(ErrorCode::NoEntry)));
    assert_eq!(f.state.stat(sub).map(|st| st.size), Ok(0));
}

#[test]
fn listing_keeps_store_order() {
    let mut f = rich("listing_keeps_store_order");
    let root_fd = f.root_fd;
    let names: Vec<Vec<u8>> = listing(&mut f, root_fd).into_iter().map(|e| e.name).collect();
    let expected: Vec<Vec<u8>> =
        ["a.txt", "abs", "bad", "dir", "dirlink", "link", "loop", "sub"].iter().map(|n| n.as_bytes().to_vec()).collect();
    assert_eq!(names, expected);
    let d = open(&mut f, "dir").unwrap();
    let types: Vec<DescriptorType> = listing(&mut f, d).into_iter().map(|e| e.type_).collect();
    assert_eq!(types, vec![DescriptorType::RegularFile, DescriptorType::SymbolicLink]);
}

#[test]
fn missing_tree_is_no_entry() {
    let f = basic("missing_tree_is_no_entry");
    let repo = repository("missing_tree_is_no_entry_elsewhere");
    let mut fs = GitFs::new(repo, f.root);
    let root = Descriptor { kind: ObjectKind::Tree, id: f.root };
    assert_eq!(fs.resolve_path(root, "a.txt", false), Err(ErrorCode::NoEntry));
    assert_eq!(fs.read_blob(&f.hello), Err(ErrorCode::NoEntry));
}
