//! The state a filesystem handle carries: the path it names, whether that
//! is a directory, and the bytes written to it since the last commit.
use vstd::prelude::*;
use crate::commit::{write_file, FsError, commit_result, committed};
use crate::system::System;

verus! {

/// Per-handle state of the filesystem overlay.
#[derive(Debug)]
pub struct MyFId {
    pub path: String,
    pub is_dir: bool,
    pub write_buffer: Option<Vec<u8>>,
}

/// The buffer after `data` is written at `offset`: a gap past the end is
/// filled with zeros, bytes under the write are replaced, others are kept.
pub open spec fn written(buf: Seq<u8>, offset: int, data: Seq<u8>) -> Seq<u8> {
    let end = offset + data.len();
    let len = if buf.len() > end {
        buf.len() as int
    } else {
        end
    };
    Seq::new(
        len as nat,
        |i: int|
            if offset <= i < end {
                data[i - offset]
            } else if i < buf.len() {
                buf[i]
            } else {
                0u8
            },
    )
}

/// Writes `data` into `buf` at `offset`.
pub fn write_at(buf: &mut Vec<u8>, offset: usize, data: &[u8])
    requires
        offset + data@.len() <= usize::MAX,
    ensures
        final(buf)@ == written(old(buf)@, offset as int, data@),
{
    let end = offset + data.len();
    let ghost b0 = buf@;
    while buf.len() < end
        invariant
            end == offset + data@.len(),
            b0.len() <= buf@.len(),
            buf@.len() <= if b0.len() > end { b0.len() as int } else { end as int },
            forall|i: int| 0 <= i < b0.len() ==> buf@[i] == b0[i],
            forall|i: int| b0.len() <= i < buf@.len() ==> buf@[i] == 0u8,
        decreases end - buf.len(),
    {
        buf.push(0u8);
    }
    let mut k: usize = 0;
    while k < data.len()
        invariant
            end == offset + data@.len(),
            k <= data@.len(),
            buf@.len() == if b0.len() > end { b0.len() as int } else { end as int },
            forall|i: int| 0 <= i < buf@.len() ==> buf@[i] == if offset <= i < offset + k {
                data@[i - offset]
            } else if i < b0.len() {
                b0[i]
            } else {
                0u8
            },
        decreases data.len() - k,
    {
        buf.set(offset + k, data[k]);
        k = k + 1;
    }
    assert(buf@ =~= written(b0, offset as int, data@));
}

/// The bytes `[offset, offset + count)` of `content`, cut at its end.
pub open spec fn window(content: Seq<u8>, offset: int, count: int) -> Seq<u8> {
    if offset >= content.len() {
        seq![]
    } else if offset + count < content.len() {
        content.subrange(offset, offset + count)
    } else {
        content.subrange(offset, content.len() as int)
    }
}

/// The slice of `content` that a read at `offset` of at most `count` bytes returns.
pub fn read_slice(content: &Vec<u8>, offset: u64, count: u32) -> (r: Vec<u8>)
    ensures
        r@ == window(content@, offset as int, count as int),
{
    let len = content.len();
    if offset >= len as u64 {
        return Vec::new();
    }
    let start = offset as usize;
    let end = if (count as u64) < (len - start) as u64 {
        start + count as usize
    } else {
        len
    };
    let mut r: Vec<u8> = Vec::new();
    let mut i: usize = start;
    while i < end
        invariant
            start <= i <= end <= len,
            len == content@.len(),
            r@ =~= content@.subrange(start as int, i as int),
        decreases end - i,
    {
        r.push(content[i]);
        i = i + 1;
    }
    r
}

impl MyFId {
    /// Handle state for `path`; the empty path stands for the root.
    pub fn new(path: String, is_dir: bool) -> (r: MyFId)
        ensures
            r.path@ == if path@.len() == 0 { "/"@ } else { path@ },
            r.is_dir == is_dir,
            r.write_buffer is None,
    {
        let path = if path.as_str().unicode_len() == 0 {
            String::from_str("/")
        } else {
            path
        };
        MyFId { path, is_dir, write_buffer: None }
    }

    /// Handle state for the root directory.
    pub fn root() -> (r: MyFId)
        ensures
            r.path@ == "/"@,
            r.is_dir,
            r.write_buffer is None,
    {
        MyFId { path: String::from_str("/"), is_dir: true, write_buffer: None }
    }

    /// Buffers a write of `data` at `offset` until the next commit, and
    /// returns the count of bytes taken. Directories refuse writes; so does
    /// a write that would end past the addressable range.
    pub fn write(&mut self, offset: u64, data: &[u8]) -> (r: Result<u32, FsError>)
        requires
            data@.len() <= u32::MAX,
        ensures
            old(self).is_dir ==> r == Err::<u32, FsError>(FsError::IsDir) && *final(self) == *old(self),
            !old(self).is_dir && offset + data@.len() > usize::MAX ==> r == Err::<u32, FsError>(
                FsError::Invalid,
            ) && *final(self) == *old(self),
            !old(self).is_dir && offset + data@.len() <= usize::MAX ==> {
                &&& r == Ok::<u32, FsError>(data@.len() as u32)
                &&& final(self).path == old(self).path
                &&& final(self).is_dir == old(self).is_dir
                &&& final(self).write_buffer is Some
                &&& final(self).write_buffer->0@ == written(
                    match old(self).write_buffer {
                        Some(b) => b@,
                        None => Seq::<u8>::empty(),
                    },
                    offset as int,
                    data@,
                )
            },
    {
        if self.is_dir {
            return Err(FsError::IsDir);
        }
        let n = data.len();
        if offset > (usize::MAX - n) as u64 {
            return Err(FsError::Invalid);
        }
        let mut buf = match self.write_buffer.take() {
            Some(b) => b,
            None => Vec::new(),
        };
        write_at(&mut buf, offset as usize, data);
        self.write_buffer = Some(buf);
        Ok(n as u32)
    }

    /// Commits the buffered bytes, if any, to the file this handle names;
    /// the buffer is emptied whatever the outcome.
    pub fn commit(&mut self, sys: &mut System) -> (r: Result<(), FsError>)
        requires
            old(sys).wf(),
        ensures
            final(sys).wf(),
            final(self).write_buffer is None,
            final(self).path == old(self).path,
            final(self).is_dir == old(self).is_dir,
            match old(self).write_buffer {
                None => r is Ok && final(sys)@ == old(sys)@,
                Some(b) => {
                    &&& r == commit_result(old(sys)@, old(self).path@, b@)
                    &&& r is Ok ==> final(sys)@ == committed(old(sys)@, old(self).path@, b@)
                    &&& r is Err ==> final(sys)@ == old(sys)@
                },
            },
    {
        match self.write_buffer.take() {
            None => Ok(()),
            Some(b) => write_file(sys, self.path.as_str(), b.as_slice()),
        }
    }
}

} // verus!
