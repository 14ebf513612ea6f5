//! Virtqueue descriptors and the chains they form.

use vstd::prelude::*;
use vstd::set_lib::set_int_range;

use crate::bytes::{read_u16, read_u32, read_u64, u16_at, u32_at, u64_at};
use crate::virtio::desc_flags::{VIRTQ_DESC_F_NEXT, VIRTQ_DESC_F_WRITE};

verus! {

/// Size of a descriptor in guest memory.
pub const DESCRIPTOR_SIZE: usize = 16;

/// Addresses and size of the queue, as the driver has set them.
#[derive(Clone, Copy, Debug, PartialEq, Eq, Structural)]
pub struct VirtQueue {
    /// Number of descriptors.
    pub size: u16,
    /// Guest physical address of the descriptor table.
    pub desc: usize,
    /// Guest physical address of the available ring.
    pub avail: usize,
    /// Guest physical address of the used ring.
    pub used: usize,
    /// Whether the driver has finished setting up the queue.
    pub ready: bool,
}

impl VirtQueue {
    /// A queue that has not been set up.
    pub fn new() -> (queue: Self)
        ensures
            queue == (VirtQueue { size: 0, desc: 0, avail: 0, used: 0, ready: false }),
    {
        VirtQueue { size: 0, desc: 0, avail: 0, used: 0, ready: false }
    }
}

/// One buffer that the guest shares with the device.
#[derive(Clone, Copy, Debug, PartialEq, Eq, Structural)]
pub struct VirtqDescriptor {
    /// Guest physical address of the buffer.
    pub addr: u64,
    /// Length of the buffer in bytes.
    pub len: u32,
    /// `VIRTQ_DESC_F_*` flags.
    pub flags: u16,
    /// Index of the next descriptor of the chain, where the flags say that
    /// there is one.
    pub next: u16,
}

impl VirtqDescriptor {
    /// Whether a further descriptor follows.
    pub open spec fn has_next(self) -> bool {
        self.flags & VIRTQ_DESC_F_NEXT != 0
    }

    /// Whether the device writes the buffer.
    pub open spec fn is_writable(self) -> bool {
        self.flags & VIRTQ_DESC_F_WRITE != 0
    }
}

/// Number of whole descriptors in a table.
pub open spec fn table_entries(table: Seq<u8>) -> nat {
    table.len() / 16
}

/// Descriptor number `idx` of a table, if the table is long enough to hold it.
pub open spec fn descriptor_at(table: Seq<u8>, idx: u16) -> Option<VirtqDescriptor> {
    let at = 16 * idx;
    if at + 16 <= table.len() {
        Some(
            VirtqDescriptor {
                addr: u64_at(table, at),
                len: u32_at(table, at + 8),
                flags: u16_at(table, at + 12),
                next: u16_at(table, at + 14),
            },
        )
    } else {
        None
    }
}

/// Reads descriptor number `idx` of a table.
pub fn read_descriptor(table: &[u8], idx: u16) -> (desc: Option<VirtqDescriptor>)
    ensures
        desc == descriptor_at(table@, idx),
{
    let at: usize = idx as usize * DESCRIPTOR_SIZE;
    if at + DESCRIPTOR_SIZE > table.len() {
        return None;
    }
    Some(
        VirtqDescriptor {
            addr: read_u64(table, at),
            len: read_u32(table, at + 8),
            flags: read_u16(table, at + 12),
            next: read_u16(table, at + 14),
        },
    )
}

/// The descriptor that follows `desc` in its chain. There is none where the
/// chain ends and where it points outside the table.
pub open spec fn successor(table: Seq<u8>, desc: VirtqDescriptor) -> Option<VirtqDescriptor> {
    if desc.has_next() {
        descriptor_at(table, desc.next)
    } else {
        None
    }
}

/// The descriptor that stands `k` places behind `head` in its chain.
pub open spec fn link(table: Seq<u8>, head: VirtqDescriptor, k: nat) -> Option<VirtqDescriptor>
    decreases k,
{
    if k == 0 {
        Some(head)
    } else {
        match link(table, head, (k - 1) as nat) {
            Some(desc) => successor(table, desc),
            None => None,
        }
    }
}

/// What a walk along a chain looks for.
#[derive(Clone, Copy, Debug, PartialEq, Eq, Structural)]
pub enum Wanted {
    /// A buffer that the device writes: the destination of a read request.
    Writable,
    /// A buffer that the device reads and that is not at `head_addr`, the
    /// address of the request header: the source of a write request.
    Payload { head_addr: u64 },
    /// The descriptor that ends the chain: the place of the status byte.
    Last,
}

impl Wanted {
    /// Whether `desc` is what is looked for.
    pub open spec fn matches(self, desc: VirtqDescriptor) -> bool {
        match self {
            Wanted::Writable => desc.is_writable(),
            Wanted::Payload { head_addr } => !desc.is_writable() && desc.addr != head_addr,
            Wanted::Last => !desc.has_next(),
        }
    }

    fn is_met_by(&self, desc: &VirtqDescriptor) -> (met: bool)
        ensures
            met == self.matches(*desc),
    {
        match self {
            Wanted::Writable => (desc.flags & VIRTQ_DESC_F_WRITE) != 0,
            Wanted::Payload { head_addr } => (desc.flags & VIRTQ_DESC_F_WRITE) == 0 && desc.addr
                != *head_addr,
            Wanted::Last => (desc.flags & VIRTQ_DESC_F_NEXT) == 0,
        }
    }
}

/// Outcome of a walk along a chain.
#[derive(Clone, Copy, Debug, PartialEq, Eq, Structural)]
pub enum Walk {
    /// The first descriptor that is wanted.
    Found(VirtqDescriptor),
    /// The chain ends, or leaves the table, before a wanted descriptor.
    Absent,
    /// The chain runs in a circle without a wanted descriptor.
    Endless,
}

/// Place `k` of the chain holds the first wanted descriptor.
pub open spec fn first_wanted_at(
    table: Seq<u8>,
    head: VirtqDescriptor,
    wanted: Wanted,
    k: nat,
) -> bool {
    &&& link(table, head, k) is Some
    &&& wanted.matches(link(table, head, k).unwrap())
    &&& forall|j: nat|
        j < k ==> !wanted.matches(#[trigger] link(table, head, j).unwrap())
}

/// The chain has no descriptor at place `k`.
pub open spec fn ends_before(table: Seq<u8>, head: VirtqDescriptor, k: nat) -> bool {
    link(table, head, k) is None
}

/// The first wanted descriptor of the chain that starts with `head`.
pub open spec fn walk(table: Seq<u8>, head: VirtqDescriptor, wanted: Wanted) -> Walk {
    if exists|k: nat| first_wanted_at(table, head, wanted, k) {
        let k = choose|k: nat| first_wanted_at(table, head, wanted, k);
        Walk::Found(link(table, head, k).unwrap())
    } else if exists|k: nat| ends_before(table, head, k) {
        Walk::Absent
    } else {
        Walk::Endless
    }
}

/// Past its end a chain has no descriptors.
proof fn lemma_link_none(table: Seq<u8>, head: VirtqDescriptor, j: nat, k: nat)
    requires
        j <= k,
        link(table, head, j) is None,
    ensures
        link(table, head, k) is None,
    decreases k,
{
    if j < k {
        lemma_link_none(table, head, j, (k - 1) as nat);
    }
}

/// Before a descriptor of a chain there are only descriptors.
pub proof fn lemma_link_some(table: Seq<u8>, head: VirtqDescriptor, j: nat, k: nat)
    requires
        j <= k,
        link(table, head, k) is Some,
    ensures
        link(table, head, j) is Some,
{
    if link(table, head, j) is None {
        lemma_link_none(table, head, j, k);
    }
}

/// Where the first wanted descriptor stands settles the walk.
pub proof fn lemma_walk_found(table: Seq<u8>, head: VirtqDescriptor, wanted: Wanted, k: nat)
    requires
        first_wanted_at(table, head, wanted, k),
    ensures
        walk(table, head, wanted) == Walk::Found(link(table, head, k).unwrap()),
{
    let c = choose|c: nat| first_wanted_at(table, head, wanted, c);
    assert(first_wanted_at(table, head, wanted, c));
    if c < k {
        assert(!wanted.matches(link(table, head, c).unwrap()));
    }
    if k < c {
        assert(!wanted.matches(link(table, head, k).unwrap()));
    }
}

/// A chain that ends without a wanted descriptor has none.
pub proof fn lemma_walk_absent(table: Seq<u8>, head: VirtqDescriptor, wanted: Wanted, k: nat)
    requires
        ends_before(table, head, k),
        forall|j: nat| j < k ==> !wanted.matches(#[trigger] link(table, head, j).unwrap()),
    ensures
        walk(table, head, wanted) == Walk::Absent,
{
    assert forall|c: nat| !first_wanted_at(table, head, wanted, c) by {
        if first_wanted_at(table, head, wanted, c) {
            if c < k {
                assert(!wanted.matches(link(table, head, c).unwrap()));
            } else {
                lemma_link_none(table, head, k, c);
            }
        }
    }
}

/// Two places of a chain that hold the same descriptor are followed by the same
/// descriptors.
proof fn lemma_link_repeats(table: Seq<u8>, head: VirtqDescriptor, a: nat, b: nat, d: nat)
    requires
        link(table, head, a) == link(table, head, b),
    ensures
        link(table, head, a + d) == link(table, head, b + d),
    decreases d,
{
    if d > 0 {
        lemma_link_repeats(table, head, a, b, (d - 1) as nat);
    }
}

/// Once a chain has come back to where it was, it holds no new descriptors.
pub proof fn lemma_circle(table: Seq<u8>, head: VirtqDescriptor, a: nat, b: nat, k: nat) -> (j: nat)
    requires
        a < b,
        link(table, head, a) == link(table, head, b),
    ensures
        j < b,
        link(table, head, j) == link(table, head, k),
    decreases k,
{
    if k < b {
        k
    } else {
        lemma_link_repeats(table, head, a, b, (k - b) as nat);
        lemma_circle(table, head, a, b, (k - (b - a)) as nat)
    }
}

/// A chain that is longer than its table has entries holds some entry twice.
proof fn lemma_pigeonhole(table: Seq<u8>, head: VirtqDescriptor, n: nat) -> (places: (nat, nat))
    requires
        n == table_entries(table),
        forall|k: nat| k <= n + 1 ==> #[trigger] link(table, head, k) is Some,
    ensures
        places.0 < places.1 <= n + 1,
        link(table, head, places.0) == link(table, head, places.1),
{
    let entries = Seq::new(n + 1, |i: int| link(table, head, i as nat).unwrap().next as int);
    assert forall|i: int| 0 <= i < entries.len() implies 0 <= #[trigger] entries[i] < n by {
        let desc = link(table, head, i as nat).unwrap();
        assert(link(table, head, (i + 1) as nat) is Some);
        assert(successor(table, desc) is Some);
    }
    if entries.no_duplicates() {
        entries.unique_seq_to_set();
        vstd::set_lib::lemma_int_range(0, n as int);
        assert(entries.to_set().subset_of(set_int_range(0, n as int)));
        vstd::set_lib::lemma_len_subset(entries.to_set(), set_int_range(0, n as int));
        assert(false);
    }
    let (i, j) = choose|i: int, j: int|
        0 <= i < entries.len() && 0 <= j < entries.len() && i != j && entries[i] == entries[j];
    let (lo, hi) = if i < j {
        (i, j)
    } else {
        (j, i)
    };
    let (a, b) = ((lo + 1) as nat, (hi + 1) as nat);
    assert(link(table, head, a) is Some && link(table, head, b) is Some);
    assert(link(table, head, lo as nat) is Some && link(table, head, hi as nat) is Some);
    (a, b)
}

/// A chain that has neither ended nor shown a wanted descriptor after more
/// places than its table has entries never will.
proof fn lemma_walk_endless(table: Seq<u8>, head: VirtqDescriptor, wanted: Wanted, n: nat)
    requires
        n == table_entries(table),
        forall|k: nat| k <= n + 1 ==> #[trigger] link(table, head, k) is Some,
        forall|k: nat| k <= n + 1 ==> !wanted.matches(#[trigger] link(table, head, k).unwrap()),
    ensures
        walk(table, head, wanted) == Walk::Endless,
{
    let (a, b) = lemma_pigeonhole(table, head, n);
    assert forall|k: nat| !first_wanted_at(table, head, wanted, k) by {
        let j = lemma_circle(table, head, a, b, k);
        assert(!wanted.matches(link(table, head, j).unwrap()));
    }
    assert forall|k: nat| !ends_before(table, head, k) by {
        let j = lemma_circle(table, head, a, b, k);
        assert(link(table, head, j) is Some);
    }
}

/// Walks along the chain that starts with `head` to the first wanted
/// descriptor.
pub fn find_descriptor(table: &[u8], head: &VirtqDescriptor, wanted: Wanted) -> (found: Walk)
    ensures
        found == walk(table@, *head, wanted),
{
    let entries: usize = table.len() / DESCRIPTOR_SIZE;
    let mut current = *head;
    let mut place: usize = 0;
    loop
        invariant
            entries == table_entries(table@),
            entries < usize::MAX,
            place <= entries + 1,
            link(table@, *head, place as nat) == Some(current),
            forall|j: nat| j <= place ==> #[trigger] link(table@, *head, j) is Some,
            forall|j: nat|
                j < place ==> !wanted.matches(#[trigger] link(table@, *head, j).unwrap()),
        decreases entries + 1 - place,
    {
        if wanted.is_met_by(&current) {
            proof {
                assert(first_wanted_at(table@, *head, wanted, place as nat));
                lemma_walk_found(table@, *head, wanted, place as nat);
            }
            return Walk::Found(current);
        }
        let next = if (current.flags & VIRTQ_DESC_F_NEXT) != 0 {
            read_descriptor(table, current.next)
        } else {
            None
        };
        assert(link(table@, *head, (place + 1) as nat) == next);
        match next {
            None => {
                proof {
                    lemma_walk_absent(table@, *head, wanted, (place + 1) as nat);
                }
                return Walk::Absent;
            },
            Some(desc) => {
                if place > entries {
                    proof {
                        lemma_walk_endless(table@, *head, wanted, entries as nat);
                    }
                    return Walk::Endless;
                }
                current = desc;
                place = place + 1;
            },
        }
    }
}

} // verus!
