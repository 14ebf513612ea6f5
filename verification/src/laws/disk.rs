//! Laws of a disk in memory.

use vstd::prelude::*;

use crate::backend::{delivered, in_address_space, read_into, readable, written};

verus! {

/// What has been written is read back.
pub proof fn law_read_back(content: Seq<u8>, offset: int, data: Seq<u8>)
    requires
        0 <= offset,
    ensures
        delivered(written(content, offset, data), offset, data.len()) == data,
{
    assert(delivered(written(content, offset, data), offset, data.len()) =~= data);
}

/// A write changes nothing outside the bytes that it covers.
pub proof fn law_write_is_local(
    content: Seq<u8>,
    offset: int,
    data: Seq<u8>,
    other: int,
    len: nat,
)
    requires
        0 <= offset,
        0 <= other,
        other + len <= content.len(),
        other + len <= offset || offset + data.len() <= other,
    ensures
        delivered(written(content, offset, data), other, len) == delivered(content, other, len),
{
    assert(delivered(written(content, offset, data), other, len) =~= delivered(
        content,
        other,
        len,
    ));
}

/// A disk never shrinks; it grows exactly as far as a write reaches beyond its
/// end, and what lies between its old end and the write reads as zero.
pub proof fn law_growth(content: Seq<u8>, offset: int, data: Seq<u8>)
    requires
        0 <= offset,
    ensures
        written(content, offset, data).len() == if content.len() < offset + data.len() {
            offset + data.len()
        } else {
            content.len() as int
        },
        forall|i: int|
            content.len() <= i < offset ==> #[trigger] written(content, offset, data)[i] == 0,
{
}

/// The later of two writes to the same bytes counts.
pub proof fn law_last_write_counts(content: Seq<u8>, offset: int, first: Seq<u8>, second: Seq<u8>)
    requires
        0 <= offset,
        first.len() == second.len(),
    ensures
        written(written(content, offset, first), offset, second) == written(
            content,
            offset,
            second,
        ),
{
    assert(written(written(content, offset, first), offset, second) =~= written(
        content,
        offset,
        second,
    ));
}

/// A read fills the start of the buffer with what the disk delivers and leaves
/// the rest alone; it delivers everything that is asked for unless the disk
/// ends before.
pub proof fn law_read(content: Seq<u8>, offset: int, buffer: Seq<u8>)
    requires
        0 <= offset,
    ensures
        ({
            let count = readable(content, offset, buffer.len());
            let after = read_into(content, offset, buffer);
            &&& count <= buffer.len()
            &&& count == buffer.len() <==> buffer.len() == 0 || offset + buffer.len()
                <= content.len()
            &&& after.subrange(0, count as int) == delivered(content, offset, buffer.len())
            &&& after.skip(count as int) == buffer.skip(count as int)
        }),
{
    let count = readable(content, offset, buffer.len());
    let after = read_into(content, offset, buffer);
    assert(after.subrange(0, count as int) =~= delivered(content, offset, buffer.len()));
    assert(after.skip(count as int) =~= buffer.skip(count as int));
}

/// Byte by byte: where a write covers it, a disk holds the data of the write;
/// everywhere else it holds what it held, and zero where it held nothing.
pub proof fn law_written_bytes(content: Seq<u8>, offset: int, data: Seq<u8>, at: int)
    requires
        0 <= offset,
        0 <= at < written(content, offset, data).len(),
    ensures
        ({
            let after = written(content, offset, data)[at];
            &&& offset <= at < offset + data.len() ==> after == data[at - offset]
            &&& !(offset <= at < offset + data.len()) && at < content.len() ==> after == content[at]
            &&& !(offset <= at < offset + data.len()) && at >= content.len() ==> after == 0
        }),
{
}

/// Byte by byte: a read fills the buffer from its start with the bytes of the
/// disk from the offset on, up to the end of the buffer or of the disk, whichever
/// comes first. The rest of the buffer stays.
pub proof fn law_read_bytes(content: Seq<u8>, offset: int, buffer: Seq<u8>, at: int)
    requires
        0 <= offset,
        0 <= at < buffer.len(),
    ensures
        ({
            let count = readable(content, offset, buffer.len());
            let after = read_into(content, offset, buffer);
            &&& after.len() == buffer.len()
            &&& at < count <==> offset + at < content.len()
            &&& offset + at < content.len() ==> after[at] == content[offset + at]
            &&& offset + at >= content.len() ==> after[at] == buffer[at]
        }),
{
}

/// The number of bytes that a read gives is limited by the buffer and by the end
/// of the disk, and by nothing else.
pub proof fn law_read_count(content: Seq<u8>, offset: int, len: nat)
    requires
        0 <= offset,
    ensures
        ({
            let count = readable(content, offset, len);
            &&& count <= len
            &&& count > 0 ==> offset + count <= content.len()
            &&& count == len || offset + count >= content.len()
            &&& delivered(content, offset, len).len() == count
            &&& forall|i: int|
                0 <= i < count ==> #[trigger] delivered(content, offset, len)[i] == content[offset
                    + i]
        }),
{
}

/// A disk in memory has room up to the largest size of an object in memory, and
/// no further.
pub proof fn law_room(offset: u64, len: nat)
    requires
        offset <= usize::MAX,
    ensures
        in_address_space(offset, len) <==> offset + len <= isize::MAX,
{
}

} // verus!
