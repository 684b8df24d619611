use gitfs::cache::ObjectMap;
use gitfs::path::{bytes_equal, find_entry, is_dot_component, is_dot_dot_component, push_components};
use gitfs::table::HandleTable;
use gitfs::{
    read_range, Descriptor, DescriptorType, ObjectHash, ObjectKind, ReadStream, ReaddirIterator,
    DirectoryEntry, StreamClosed, Trap, TreeEntry,
};
use gitfs::object::entry_kind_to_descriptor_type;

fn h(first: u8) -> ObjectHash {
    let mut bytes = [0u8; 20];
    bytes[0] = first;
    bytes[19] = first.wrapping_mul(3);
    ObjectHash::new(bytes)
}

#[test]
fn read_range_within_and_past_the_end() {
    let blob = b"hello";
    assert_eq!(read_range(blob, 100, 0), (b"hello".to_vec(), true));
    assert_eq!(read_range(blob, 2, 0), (b"he".to_vec(), false));
    assert_eq!(read_range(blob, 10, 2), (b"llo".to_vec(), true));
    assert_eq!(read_range(blob, 3, 2), (b"llo".to_vec(), true));
    assert_eq!(read_range(blob, 1, 4), (b"o".to_vec(), true));
    assert_eq!(read_range(blob, 10, 5), (Vec::new(), true));
    assert_eq!(read_range(blob, 10, u64::MAX), (Vec::new(), true));
    assert_eq!(read_range(blob, 0, 1), (Vec::new(), false));
    assert_eq!(read_range(blob, u64::MAX, 1), (b"ello".to_vec(), true));
    assert_eq!(read_range(b"", 0, 0), (Vec::new(), true));
}

#[test]
fn stream_advances_then_closes() {
    let mut s = ReadStream::new(b"abcdef", 2);
    assert_eq!(s.read(3).unwrap().as_ref(), b"cde");
    assert_eq!(s.read(0).unwrap().as_ref(), b"");
    assert_eq!(s.read(9).unwrap().as_ref(), b"f");
    assert_eq!(s.read(1), Err(StreamClosed::Closed));
    let mut empty = ReadStream::new(b"", 0);
    assert_eq!(empty.read(4), Err(StreamClosed::Closed));
}

#[test]
fn path_components_stack() {
    let mut stack: Vec<Vec<u8>> = Vec::new();
    push_components(&mut stack, b"a//b/");
    assert_eq!(stack, vec![b"".to_vec(), b"b".to_vec(), b"".to_vec(), b"a".to_vec()]);
    let mut stack: Vec<Vec<u8>> = vec![b"rest".to_vec()];
    push_components(&mut stack, b"x/y");
    assert_eq!(stack, vec![b"rest".to_vec(), b"y".to_vec(), b"x".to_vec()]);
    let mut stack: Vec<Vec<u8>> = Vec::new();
    push_components(&mut stack, b"");
    assert_eq!(stack, vec![Vec::<u8>::new()]);
}

#[test]
fn dot_components() {
    assert!(is_dot_component(b"."));
    assert!(!is_dot_component(b".."));
    assert!(is_dot_dot_component(b".."));
    assert!(!is_dot_dot_component(b"..."));
    assert!(!is_dot_dot_component(b".a"));
    assert!(bytes_equal(b"abc", b"abc"));
    assert!(!bytes_equal(b"abc", b"abd"));
    assert!(!bytes_equal(b"abc", b"ab"));
}

#[test]
fn find_entry_takes_the_first_match() {
    let entries = vec![
        TreeEntry { name: b"a".to_vec(), kind: ObjectKind::Blob, id: h(1) },
        TreeEntry { name: b"b".to_vec(), kind: ObjectKind::Tree, id: h(2) },
        TreeEntry { name: b"b".to_vec(), kind: ObjectKind::Link, id: h(3) },
    ];
    assert_eq!(find_entry(&entries, b"b"), Some(1));
    assert_eq!(find_entry(&entries, b"a"), Some(0));
    assert_eq!(find_entry(&entries, b"c"), None);
    assert_eq!(find_entry(&Vec::new(), b"a"), None);
}

#[test]
fn hashes_and_descriptors_compare_by_value() {
    assert!(h(1).same_as(&h(1)));
    assert!(!h(1).same_as(&h(2)));
    let a = Descriptor { kind: ObjectKind::Blob, id: h(1) };
    let b = Descriptor { kind: ObjectKind::BlobExecutable, id: h(1) };
    assert!(a.same_object(&a.clone()));
    assert!(!a.same_object(&b));
}

#[test]
fn kinds_map_to_file_types() {
    assert_eq!(entry_kind_to_descriptor_type(ObjectKind::Tree), DescriptorType::Directory);
    assert_eq!(entry_kind_to_descriptor_type(ObjectKind::Blob), DescriptorType::RegularFile);
    assert_eq!(entry_kind_to_descriptor_type(ObjectKind::BlobExecutable), DescriptorType::RegularFile);
    assert_eq!(entry_kind_to_descriptor_type(ObjectKind::Link), DescriptorType::SymbolicLink);
    assert_eq!(entry_kind_to_descriptor_type(ObjectKind::Commit), DescriptorType::Directory);
}

#[test]
fn handle_table_never_reuses_handles() {
    let mut t: HandleTable<u8> = HandleTable::new();
    let a = t.push(10).unwrap();
    let b = t.push(20).unwrap();
    assert_ne!(a, b);
    assert_eq!(t.get(a), Ok(&10));
    assert_eq!(t.delete(a), Ok(10));
    assert_eq!(t.delete(a), Err(Trap::UnknownHandle));
    assert_eq!(t.get(a), Err(Trap::UnknownHandle));
    assert!(!t.contains(a));
    let c = t.push(30).unwrap();
    assert_ne!(c, a);
    assert_eq!(t.get(b), Ok(&20));
    assert_eq!(t.get(99), Err(Trap::UnknownHandle));
}

#[test]
fn object_map_insert_and_replace() {
    let mut m: ObjectMap<u32> = ObjectMap::new();
    assert_eq!(m.get(&h(1)), None);
    m.insert(h(1), 5);
    m.insert(h(2), 6);
    assert_eq!(m.get(&h(1)), Some(&5));
    m.insert(h(1), 7);
    assert_eq!(m.get(&h(1)), Some(&7));
    assert_eq!(m.get(&h(2)), Some(&6));
    assert_eq!(m.get(&h(3)), None);
}

#[test]
fn readdir_iterator_hands_out_in_order() {
    let listed = vec![
        DirectoryEntry { type_: DescriptorType::RegularFile, name: b"x".to_vec() },
        DirectoryEntry { type_: DescriptorType::Directory, name: b"y".to_vec() },
    ];
    let mut it = ReaddirIterator::new(listed.clone());
    assert_eq!(it.next_entry(), Some(listed[0].clone()));
    assert_eq!(it.next_entry(), Some(listed[1].clone()));
    assert_eq!(it.next_entry(), None);
    assert_eq!(it.next_entry(), None);
}
