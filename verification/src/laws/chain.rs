//! Laws of descriptor chains.

use vstd::prelude::*;

use crate::bytes::{
    lemma_u16_round_trip, lemma_u32_round_trip, lemma_u64_round_trip, u16_bytes, u32_bytes,
    u64_bytes,
};
use crate::laws::numbers::law_bytes_read_back;
use crate::queue::{
    descriptor_at, ends_before, first_wanted_at, lemma_circle, lemma_link_some, lemma_walk_absent,
    lemma_walk_found, link, walk, VirtqDescriptor, Walk, Wanted,
};

verus! {

/// A header descriptor, a data descriptor and a status descriptor, each linked
/// to the next.
pub open spec fn is_request_chain(
    table: Seq<u8>,
    head: VirtqDescriptor,
    data: VirtqDescriptor,
    status: VirtqDescriptor,
) -> bool {
    &&& head.has_next()
    &&& descriptor_at(table, head.next) == Some(data)
    &&& data.has_next()
    &&& descriptor_at(table, data.next) == Some(status)
    &&& !status.has_next()
}

/// In a chain of header, data and status the status goes to the last
/// descriptor.
pub proof fn law_status_descriptor(
    table: Seq<u8>,
    head: VirtqDescriptor,
    data: VirtqDescriptor,
    status: VirtqDescriptor,
)
    requires
        is_request_chain(table, head, data, status),
    ensures
        walk(table, head, Wanted::Last) == Walk::Found(status),
{
    reveal_with_fuel(link, 3);
    assert(link(table, head, 0) == Some(head));
    assert(link(table, head, 1) == Some(data));
    assert(link(table, head, 2) == Some(status));
    assert(first_wanted_at(table, head, Wanted::Last, 2));
    lemma_walk_found(table, head, Wanted::Last, 2);
}

/// In a chain of header, data and status whose header is not for the device to
/// write, a read request fills the data descriptor if the device may write it.
pub proof fn law_read_descriptor(
    table: Seq<u8>,
    head: VirtqDescriptor,
    data: VirtqDescriptor,
    status: VirtqDescriptor,
)
    requires
        is_request_chain(table, head, data, status),
        !head.is_writable(),
        data.is_writable(),
    ensures
        walk(table, head, Wanted::Writable) == Walk::Found(data),
{
    reveal_with_fuel(link, 2);
    assert(link(table, head, 0) == Some(head));
    assert(link(table, head, 1) == Some(data));
    assert(first_wanted_at(table, head, Wanted::Writable, 1));
    lemma_walk_found(table, head, Wanted::Writable, 1);
}

/// In a chain of header, data and status a write request takes its data from
/// the data descriptor if the device may only read it.
pub proof fn law_write_descriptor(
    table: Seq<u8>,
    head: VirtqDescriptor,
    data: VirtqDescriptor,
    status: VirtqDescriptor,
)
    requires
        is_request_chain(table, head, data, status),
        !data.is_writable(),
        data.addr != head.addr,
    ensures
        walk(table, head, Wanted::Payload { head_addr: head.addr }) == Walk::Found(data),
{
    let wanted = Wanted::Payload { head_addr: head.addr };
    reveal_with_fuel(link, 2);
    assert(link(table, head, 0) == Some(head));
    assert(link(table, head, 1) == Some(data));
    assert(first_wanted_at(table, head, wanted, 1));
    lemma_walk_found(table, head, wanted, 1);
}

/// A walk tells the truth: what it finds is in the chain and is wanted, with
/// nothing wanted before it; what it reports absent is nowhere in a chain that
/// ends; and an endless chain neither ends nor holds what is wanted.
pub proof fn law_walk(table: Seq<u8>, head: VirtqDescriptor, wanted: Wanted)
    ensures
        match walk(table, head, wanted) {
            Walk::Found(desc) => exists|k: nat|
                first_wanted_at(table, head, wanted, k) && #[trigger] link(table, head, k) == Some(
                    desc,
                ),
            Walk::Absent => {
                &&& exists|k: nat| #[trigger] link(table, head, k) is None
                &&& forall|k: nat| #[trigger] link(table, head, k) is Some ==> !wanted.matches(
                    link(table, head, k).unwrap(),
                )
            },
            Walk::Endless => forall|k: nat| #[trigger] link(table, head, k) is Some
                && !wanted.matches(link(table, head, k).unwrap()),
        },
{
    let found = exists|k: nat| first_wanted_at(table, head, wanted, k);
    if found {
        let k = choose|k: nat| first_wanted_at(table, head, wanted, k);
        assert(link(table, head, k) is Some);
    } else {
        assert forall|k: nat| #[trigger] link(table, head, k) is Some implies !wanted.matches(
            link(table, head, k).unwrap(),
        ) by {
            if wanted.matches(link(table, head, k).unwrap()) {
                lemma_some_first(table, head, wanted, k);
            }
        }
        if exists|k: nat| ends_before(table, head, k) {
            let k = choose|k: nat| ends_before(table, head, k);
            assert(link(table, head, k) is None);
        } else {
            assert forall|k: nat| #[trigger] link(table, head, k) is Some by {
                assert(!ends_before(table, head, k));
            }
        }
    }
}

/// Where a chain holds a wanted descriptor, it holds a first one.
proof fn lemma_some_first(table: Seq<u8>, head: VirtqDescriptor, wanted: Wanted, k: nat)
    requires
        link(table, head, k) is Some,
        wanted.matches(link(table, head, k).unwrap()),
    ensures
        exists|c: nat| first_wanted_at(table, head, wanted, c),
    decreases k,
{
    if forall|j: nat| j < k ==> !wanted.matches(#[trigger] link(table, head, j).unwrap()) {
        assert(first_wanted_at(table, head, wanted, k));
    } else {
        let j = choose|j: nat| j < k && wanted.matches(#[trigger] link(table, head, j).unwrap());
        lemma_link_some(table, head, j, k);
        lemma_some_first(table, head, wanted, j);
    }
}

/// The sixteen bytes of a descriptor: address, length, flags and the index of
/// the next descriptor.
pub open spec fn descriptor_bytes(desc: VirtqDescriptor) -> Seq<u8> {
    u64_bytes(desc.addr) + u32_bytes(desc.len) + u16_bytes(desc.flags) + u16_bytes(desc.next)
}

/// Entry number `idx` of a table consists of the bytes of `desc`.
pub open spec fn entry_holds(table: Seq<u8>, idx: u16, desc: VirtqDescriptor) -> bool {
    &&& 16 * idx + 16 <= table.len()
    &&& table.subrange(16 * idx, 16 * idx + 16) == descriptor_bytes(desc)
}

proof fn lemma_parts(a: Seq<u8>, b: Seq<u8>, c: Seq<u8>, d: Seq<u8>)
    requires
        a.len() == 8,
        b.len() == 4,
        c.len() == 2,
        d.len() == 2,
    ensures
        ({
            let s = a + b + c + d;
            &&& s.subrange(0, 8) == a
            &&& s.subrange(8, 12) == b
            &&& s.subrange(12, 14) == c
            &&& s.subrange(14, 16) == d
        }),
{
    let s = a + b + c + d;
    assert(s.subrange(0, 8) =~= a);
    assert(s.subrange(8, 12) =~= b);
    assert(s.subrange(12, 14) =~= c);
    assert(s.subrange(14, 16) =~= d);
}

proof fn lemma_entry_parts(table: Seq<u8>, at: int)
    requires
        0 <= at,
        at + 16 <= table.len(),
    ensures
        ({
            let entry = table.subrange(at, at + 16);
            &&& entry.subrange(0, 8) == table.subrange(at, at + 8)
            &&& entry.subrange(8, 12) == table.subrange(at + 8, at + 12)
            &&& entry.subrange(12, 14) == table.subrange(at + 12, at + 14)
            &&& entry.subrange(14, 16) == table.subrange(at + 14, at + 16)
            &&& entry == table.subrange(at, at + 8) + table.subrange(at + 8, at + 12)
                + table.subrange(at + 12, at + 14) + table.subrange(at + 14, at + 16)
        }),
{
    let entry = table.subrange(at, at + 16);
    assert(entry.subrange(0, 8) =~= table.subrange(at, at + 8));
    assert(entry.subrange(8, 12) =~= table.subrange(at + 8, at + 12));
    assert(entry.subrange(12, 14) =~= table.subrange(at + 12, at + 14));
    assert(entry.subrange(14, 16) =~= table.subrange(at + 14, at + 16));
    assert(entry =~= table.subrange(at, at + 8) + table.subrange(at + 8, at + 12) + table.subrange(
        at + 12,
        at + 14,
    ) + table.subrange(at + 14, at + 16));
}

proof fn lemma_entry_read(table: Seq<u8>, idx: u16, desc: VirtqDescriptor)
    requires
        entry_holds(table, idx, desc),
    ensures
        descriptor_at(table, idx) == Some(desc),
{
    let at = 16 * idx;
    lemma_parts(
        u64_bytes(desc.addr),
        u32_bytes(desc.len),
        u16_bytes(desc.flags),
        u16_bytes(desc.next),
    );
    lemma_entry_parts(table, at);
    lemma_u64_round_trip(table, at, desc.addr);
    lemma_u32_round_trip(table, at + 8, desc.len);
    lemma_u16_round_trip(table, at + 12, desc.flags);
    lemma_u16_round_trip(table, at + 14, desc.next);
}

proof fn lemma_entry_held(table: Seq<u8>, idx: u16, desc: VirtqDescriptor)
    requires
        descriptor_at(table, idx) == Some(desc),
    ensures
        entry_holds(table, idx, desc),
{
    let at = 16 * idx;
    law_bytes_read_back(table, at);
    law_bytes_read_back(table, at + 8);
    law_bytes_read_back(table, at + 12);
    law_bytes_read_back(table, at + 14);
    lemma_entry_parts(table, at);
}

/// Reading a descriptor inverts its layout: a descriptor is read from an entry
/// exactly where the entry consists of its bytes, and every entry that lies in
/// the table is read as some descriptor.
pub proof fn law_descriptor_layout(table: Seq<u8>, idx: u16, desc: VirtqDescriptor)
    ensures
        descriptor_at(table, idx) == Some(desc) <==> entry_holds(table, idx, desc),
        descriptor_at(table, idx) is Some <==> 16 * idx + 16 <= table.len(),
{
    if entry_holds(table, idx, desc) {
        lemma_entry_read(table, idx, desc);
    }
    if descriptor_at(table, idx) == Some(desc) {
        lemma_entry_held(table, idx, desc);
    }
}

/// What a walk looks for, told by the bits of the flags: bit 0 is set where a
/// further descriptor follows, bit 1 where the device writes the buffer.
pub open spec fn is_wanted(wanted: Wanted, desc: VirtqDescriptor) -> bool {
    match wanted {
        Wanted::Writable => (desc.flags / 2) % 2 == 1,
        Wanted::Payload { head_addr } => (desc.flags / 2) % 2 == 0 && desc.addr != head_addr,
        Wanted::Last => desc.flags % 2 == 0,
    }
}

/// The flags of a descriptor are single bits.
pub proof fn law_flags(desc: VirtqDescriptor, wanted: Wanted)
    ensures
        desc.has_next() <==> desc.flags % 2 == 1,
        desc.is_writable() <==> (desc.flags / 2) % 2 == 1,
        wanted.matches(desc) <==> is_wanted(wanted, desc),
{
    let flags = desc.flags;
    assert(flags & 1 == flags % 2) by (bit_vector);
    assert((flags & 2 != 0) == ((flags / 2) % 2 == 1)) by (bit_vector);
}

/// Descriptors that follow each other: the flags of each but the last say that
/// there is a next one, and the entry that it names holds the one behind it.
pub open spec fn is_chain(table: Seq<u8>, descs: Seq<VirtqDescriptor>) -> bool {
    &&& descs.len() > 0
    &&& forall|i: int|
        0 <= i < descs.len() - 1 ==> (#[trigger] descs[i]).flags % 2 == 1 && entry_holds(
            table,
            descs[i].next,
            descs[i + 1],
        )
}

/// Descriptors that follow each other are the chain of the first.
pub proof fn law_chain(table: Seq<u8>, descs: Seq<VirtqDescriptor>, k: nat)
    requires
        is_chain(table, descs),
        k < descs.len(),
    ensures
        link(table, descs[0], k) == Some(descs[k as int]),
    decreases k,
{
    if k > 0 {
        law_chain(table, descs, (k - 1) as nat);
        let before = descs[k - 1];
        law_flags(before, Wanted::Last);
        law_descriptor_layout(table, before.next, descs[k as int]);
    }
}

proof fn lemma_unwanted(table: Seq<u8>, descs: Seq<VirtqDescriptor>, wanted: Wanted, n: nat)
    requires
        is_chain(table, descs),
        n <= descs.len(),
        forall|i: int| 0 <= i < n ==> !is_wanted(wanted, #[trigger] descs[i]),
    ensures
        forall|j: nat|
            j < n ==> !wanted.matches(#[trigger] link(table, descs[0], j).unwrap()),
{
    assert forall|j: nat| j < n implies !wanted.matches(
        #[trigger] link(table, descs[0], j).unwrap(),
    ) by {
        law_chain(table, descs, j);
        law_flags(descs[j as int], wanted);
    }
}

/// A walk finds the first wanted descriptor of a chain, however far down the
/// chain it is.
pub proof fn law_walk_finds(table: Seq<u8>, descs: Seq<VirtqDescriptor>, wanted: Wanted, k: nat)
    requires
        is_chain(table, descs),
        k < descs.len(),
        forall|i: int| 0 <= i < k ==> !is_wanted(wanted, #[trigger] descs[i]),
        is_wanted(wanted, descs[k as int]),
    ensures
        walk(table, descs[0], wanted) == Walk::Found(descs[k as int]),
{
    lemma_unwanted(table, descs, wanted, k);
    law_chain(table, descs, k);
    law_flags(descs[k as int], wanted);
    assert(first_wanted_at(table, descs[0], wanted, k));
    lemma_walk_found(table, descs[0], wanted, k);
}

/// A walk finds nothing in a chain without a wanted descriptor that ends: at a
/// descriptor that names no next one, or one outside the table.
pub proof fn law_walk_ends(table: Seq<u8>, descs: Seq<VirtqDescriptor>, wanted: Wanted)
    requires
        is_chain(table, descs),
        forall|i: int| 0 <= i < descs.len() ==> !is_wanted(wanted, #[trigger] descs[i]),
        descs.last().flags % 2 == 0 || 16 * descs.last().next + 16 > table.len(),
    ensures
        walk(table, descs[0], wanted) == Walk::Absent,
{
    let n = descs.len();
    lemma_unwanted(table, descs, wanted, n);
    law_chain(table, descs, (n - 1) as nat);
    law_flags(descs.last(), wanted);
    law_descriptor_layout(table, descs.last().next, descs.last());
    assert(ends_before(table, descs[0], n));
    lemma_walk_absent(table, descs[0], wanted, n);
}

/// A walk never ends in a chain that comes back to where it was without a wanted
/// descriptor.
pub proof fn law_walk_circles(
    table: Seq<u8>,
    descs: Seq<VirtqDescriptor>,
    wanted: Wanted,
    back: nat,
)
    requires
        is_chain(table, descs),
        forall|i: int| 0 <= i < descs.len() ==> !is_wanted(wanted, #[trigger] descs[i]),
        back < descs.len() - 1,
        descs.last() == descs[back as int],
    ensures
        walk(table, descs[0], wanted) == Walk::Endless,
{
    let end = (descs.len() - 1) as nat;
    lemma_unwanted(table, descs, wanted, descs.len());
    law_chain(table, descs, back);
    law_chain(table, descs, end);
    assert forall|k: nat| !first_wanted_at(table, descs[0], wanted, k) by {
        let j = lemma_circle(table, descs[0], back, end, k);
        assert(!wanted.matches(link(table, descs[0], j).unwrap()));
    }
    assert forall|k: nat| !ends_before(table, descs[0], k) by {
        let j = lemma_circle(table, descs[0], back, end, k);
        law_chain(table, descs, j);
    }
}

} // verus!
