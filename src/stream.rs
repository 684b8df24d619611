//! Reading blob content: positioned reads, and streams that remember where
//! they are.
use vstd::prelude::*;
use vstd::slice::{slice_subrange, slice_to_vec};

verus! {

#[verifier::external_type_specification]
#[verifier::external_body]
pub struct ExBytes(bytes::Bytes);

/// The bytes that a `Bytes` buffer holds.
pub uninterp spec fn bytes_content(b: bytes::Bytes) -> Seq<u8>;

/// Relies on `Bytes::copy_from_slice`: a buffer holding a copy of `data`.
#[verifier::external_body]
fn bytes_copy(data: &[u8]) -> (r: bytes::Bytes)
    ensures
        bytes_content(r) == data@,
{
    bytes::Bytes::copy_from_slice(data)
}

/// Relies on `Bytes::len`: the number of bytes held.
#[verifier::external_body]
fn bytes_len(b: &bytes::Bytes) -> (r: usize)
    ensures
        r == bytes_content(*b).len(),
{
    b.len()
}

/// Relies on `Bytes::slice`: the bytes from `start` up to `end`, sharing the
/// buffer; it panics unless `start <= end <= len`.
#[verifier::external_body]
fn bytes_slice(b: &bytes::Bytes, start: usize, end: usize) -> (r: bytes::Bytes)
    requires
        start <= end <= bytes_content(*b).len(),
    ensures
        bytes_content(r) == bytes_content(*b).subrange(start as int, end as int),
{
    b.slice(start..end)
}

/// What a positioned read returns: the bytes from `offset` on, at most
/// `length` of them, and whether they reach the end of the blob. At or past
/// the end it is nothing, and the end.
pub open spec fn read_window(blob: Seq<u8>, length: u64, offset: u64) -> (Seq<u8>, bool) {
    if offset >= blob.len() {
        (Seq::empty(), true)
    } else {
        let n: int = if length < blob.len() - offset {
            length as int
        } else {
            blob.len() - offset
        };
        (blob.subrange(offset as int, offset + n), offset + n >= blob.len())
    }
}

pub fn read_range(blob: &[u8], length: u64, offset: u64) -> (r: (Vec<u8>, bool))
    ensures
        (r.0@, r.1) == read_window(blob@, length, offset),
{
    let len = blob.len();
    if offset >= len as u64 {
        return (Vec::new(), true);
    }
    let start = offset as usize;
    let available = len - start;
    let n: usize = if length < available as u64 {
        length as usize
    } else {
        available
    };
    let eof = start + n >= len;
    (slice_to_vec(slice_subrange(blob, start, start + n)), eof)
}

/// The condition a stream reports once it has nothing more to give.
#[derive(Clone, Copy, Debug, PartialEq, Eq, Structural)]
pub enum StreamClosed {
    Closed,
}

/// A stream over a blob's content, positioned at `offset`.
pub struct ReadStream {
    data: bytes::Bytes,
    offset: u64,
}

impl ReadStream {
    pub closed spec fn content(&self) -> Seq<u8> {
        bytes_content(self.data)
    }

    pub closed spec fn position(&self) -> u64 {
        self.offset
    }

    pub fn new(data: &[u8], offset: u64) -> (r: ReadStream)
        ensures
            r.content() == data@,
            r.position() == offset,
    {
        ReadStream { data: bytes_copy(data), offset }
    }

    /// Up to `size` bytes from the current position, which moves past them.
    /// At or past the end the stream is closed.
    pub fn read(&mut self, size: usize) -> (r: Result<bytes::Bytes, StreamClosed>)
        ensures
            final(self).content() == old(self).content(),
            old(self).position() >= old(self).content().len() ==> {
                &&& r == Err::<bytes::Bytes, StreamClosed>(StreamClosed::Closed)
                &&& final(self).position() == old(self).position()
            },
            old(self).position() < old(self).content().len() ==> {
                let pos = old(self).position() as int;
                let n = if size < old(self).content().len() - pos {
                    size as int
                } else {
                    old(self).content().len() - pos
                };
                &&& r matches Ok(b) && bytes_content(b) == old(self).content().subrange(pos, pos + n)
                &&& final(self).position() == pos + n
            },
    {
        let len = bytes_len(&self.data);
        if self.offset >= len as u64 {
            return Err(StreamClosed::Closed);
        }
        let start = self.offset as usize;
        let available = len - start;
        let n = if size < available {
            size
        } else {
            available
        };
        let out = bytes_slice(&self.data, start, start + n);
        self.offset = self.offset + n as u64;
        Ok(out)
    }
}

} // verus!
