//! Disks.

use vstd::prelude::*;

use crate::error::BlkError;

verus! {

/// Sector size of the disks of this crate.
pub const SECTOR_SIZE: u64 = 512;

/// Whether `len` bytes at `offset` can be part of an object in memory, which is
/// never larger than `isize::MAX` bytes.
pub open spec fn in_address_space(offset: u64, len: nat) -> bool {
    offset as usize + len <= isize::MAX
}

/// Tells whether `len` bytes at `offset` can be part of an object in memory.
pub fn fits_address_space(offset: u64, len: usize) -> (fits: bool)
    ensures
        fits == in_address_space(offset, len as nat),
{
    match (offset as usize).checked_add(len) {
        Some(end) => end <= isize::MAX as usize,
        None => false,
    }
}

/// A disk that a device can be put in front of.
pub trait BlockBackend: Send + Sync {
    /// Whether the disk can take `len` bytes at `offset`.
    open spec fn has_room(&self, offset: u64, len: nat) -> bool {
        true
    }

    /// Reads bytes that start at `offset` into `data`; returns how many.
    fn read(&self, offset: u64, data: &mut [u8]) -> (result: Result<usize, BlkError>);

    /// Writes `data` to the bytes that start at `offset`; returns how many were
    /// written.
    fn write(&mut self, offset: u64, data: &[u8]) -> (result: Result<usize, BlkError>)
        requires
            old(self).has_room(offset, data@.len()),
    ;

    /// Size of the disk in bytes.
    fn size(&self) -> (bytes: u64);

    /// Writes back whatever is pending.
    fn flush(&mut self) -> (result: Result<(), BlkError>);

    /// Sector size.
    fn block_size(&self) -> (bytes: u64)
        default_ensures
            bytes == SECTOR_SIZE,
    {
        SECTOR_SIZE
    }
}

/// How many of `len` bytes at `offset` a disk with the given content can
/// deliver.
pub open spec fn readable(content: Seq<u8>, offset: int, len: nat) -> nat {
    if offset >= content.len() {
        0
    } else if content.len() - offset < len {
        (content.len() - offset) as nat
    } else {
        len
    }
}

/// The bytes that a disk with the given content delivers when `len` bytes at
/// `offset` are asked for.
pub open spec fn delivered(content: Seq<u8>, offset: int, len: nat) -> Seq<u8> {
    Seq::new(readable(content, offset, len), |i: int| content[offset + i])
}

/// `buffer` after as many bytes as can be delivered have been read into it.
pub open spec fn read_into(content: Seq<u8>, offset: int, buffer: Seq<u8>) -> Seq<u8> {
    let n = readable(content, offset, buffer.len());
    Seq::new(
        buffer.len(),
        |i: int|
            if i < n {
                content[offset + i]
            } else {
                buffer[i]
            },
    )
}

/// Content of a disk after `data` has been written at `offset`. A disk that is
/// too short grows, and what lies between its old end and `offset` is zero.
pub open spec fn written(content: Seq<u8>, offset: int, data: Seq<u8>) -> Seq<u8> {
    let end = offset + data.len();
    Seq::new(
        if end > content.len() {
            end as nat
        } else {
            content.len()
        },
        |i: int|
            if offset <= i < end {
                data[i - offset]
            } else if i < content.len() {
                content[i]
            } else {
                0
            },
    )
}

/// A disk in memory.
pub struct MemoryBackend {
    data: Vec<u8>,
}

impl View for MemoryBackend {
    type V = Seq<u8>;

    closed spec fn view(&self) -> Seq<u8> {
        self.data@
    }
}

impl MemoryBackend {
    /// A disk of `size` zero bytes.
    pub fn new(size: u64) -> (disk: Self)
        requires
            size as usize <= isize::MAX,
        ensures
            disk@ == Seq::new(size as usize as nat, |i: int| 0u8),
    {
        let data: Vec<u8> = vec![0u8; size as usize];
        assert(data@ =~= Seq::new(size as usize as nat, |i: int| 0u8));
        MemoryBackend { data }
    }
}

impl BlockBackend for MemoryBackend {
    open spec fn has_room(&self, offset: u64, len: nat) -> bool {
        in_address_space(offset, len)
    }

    fn read(&self, offset: u64, data: &mut [u8]) -> (result: Result<usize, BlkError>)
        ensures
            result == Ok::<usize, BlkError>(
                readable(self@, offset as usize as int, old(data)@.len()) as usize,
            ),
            final(data)@ == read_into(self@, offset as usize as int, old(data)@),
    {
        let offset: usize = offset as usize;
        if offset >= self.data.len() {
            assert(data@ =~= read_into(self@, offset as int, data@));
            return Ok(0);
        }
        let available: usize = self.data.len() - offset;
        let to_read: usize = if available < data.len() {
            available
        } else {
            data.len()
        };
        let mut i: usize = 0;
        while i < to_read
            invariant
                offset + to_read <= self.data@.len() == self.data.len(),
                i <= to_read <= old(data)@.len(),
                data@.len() == old(data)@.len(),
                forall|j: int| 0 <= j < i ==> data@[j] == self.data@[offset + j],
                forall|j: int| i <= j < data@.len() ==> data@[j] == old(data)@[j],
            decreases to_read - i,
        {
            data[i] = self.data[offset + i];
            i = i + 1;
        }
        assert(data@ =~= read_into(self@, offset as int, old(data)@));
        Ok(to_read)
    }

    fn write(&mut self, offset: u64, data: &[u8]) -> (result: Result<usize, BlkError>)
        ensures
            result == Ok::<usize, BlkError>(data@.len() as usize),
            final(self)@ == written(old(self)@, offset as usize as int, data@),
    {
        let offset: usize = offset as usize;
        let end: usize = offset + data.len();
        if end > self.data.len() {
            self.data.resize(end, 0);
        }
        let ghost grown = self.data@;
        assert(grown =~= written(old(self)@, end as int, Seq::empty()));
        let mut i: usize = 0;
        while i < data.len()
            invariant
                offset + data@.len() == end <= self.data@.len(),
                i <= data@.len(),
                self.data@.len() == grown.len(),
                forall|j: int| offset <= j < offset + i ==> self.data@[j] == data@[j - offset],
                forall|j: int|
                    0 <= j < grown.len() && !(offset <= j < offset + i) ==> self.data@[j]
                        == grown[j],
            decreases data@.len() - i,
        {
            self.data[offset + i] = data[i];
            i = i + 1;
        }
        proof {
            let expected = written(old(self)@, offset as int, data@);
            assert(i == data@.len());
            assert(self@.len() == expected.len());
            assert forall|j: int| 0 <= j < expected.len() implies self@[j] == expected[j] by {
                if !(offset <= j < end) {
                    assert(self.data@[j] == grown[j]);
                }
            }
            assert(self@ =~= expected);
        }
        Ok(data.len())
    }

    fn size(&self) -> (bytes: u64)
        ensures
            bytes == self@.len(),
    {
        self.data.len() as u64
    }

    fn flush(&mut self) -> (result: Result<(), BlkError>)
        ensures
            result == Ok::<(), BlkError>(()),
            *final(self) == *old(self),
    {
        Ok(())
    }

    fn block_size(&self) -> (bytes: u64)
        ensures
            bytes == SECTOR_SIZE,
    {
        SECTOR_SIZE
    }
}

} // verus!
