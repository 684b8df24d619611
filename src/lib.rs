//! A read-only filesystem for sandboxed guests, served from the committed
//! tree of a git repository: path resolution over immutable, content-addressed
//! trees, handle tables, cached blob reads, and the guest-facing interface
//! that refuses every change.
pub mod adapter;
pub mod cache;
pub mod engine;
pub mod object;
pub mod path;
pub mod store;
pub mod stream;
pub mod table;

pub use adapter::{
    DescriptorStat, MetadataHashValue, MyReaddirIterator, OpenFlags, ReaddirIterator, WasiState,
};
pub use engine::{GitFs, MAX_SYMLINK_HOPS};
pub use object::{
    Descriptor, DescriptorType, DirectoryEntry, ErrorCode, FsError, FsResult, MyDescriptor,
    ObjectHash, ObjectKind, TreeEntry, Trap,
};
pub use stream::{read_range, ReadStream, StreamClosed};
