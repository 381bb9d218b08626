//! Receive descriptor ring.
//!
//! Each ring entry pairs one hardware descriptor record with the buffer it
//! currently references.  The descriptor's ownership bit is the sole
//! synchronization primitive between software and the engine: while it is
//! set only the engine may touch the record and the buffer, while it is
//! clear only software may.  Frames spanning more than one descriptor are
//! detected and dropped: multi-descriptor reassembly is an explicit
//! limitation of this driver, not an oversight.

use vstd::prelude::*;

use crate::buffer::{padded_size, Arena, Buffer, DESC_SIZE};
use crate::regs::{DmaRegisters, DMAOMR_SR, DMASR_RPS_SHIFT};

verus! {

/// Status word: descriptor is owned by the DMA engine.
pub const RXDESC_0_OWN: u32 = 0x8000_0000;
/// Status word: error summary.
pub const RXDESC_0_ES: u32 = 0x0000_8000;
/// Status word: descriptor holds the first buffer of a frame.
pub const RXDESC_0_FS: u32 = 0x0000_0200;
/// Status word: descriptor holds the last buffer of a frame.
pub const RXDESC_0_LS: u32 = 0x0000_0100;
/// Status word: frame length field mask (after shifting).
pub const RXDESC_0_FL_MASK: u32 = 0x3FFF;
/// Status word: frame length field shift.
pub const RXDESC_0_FL_SHIFT: u32 = 16;
/// Control word: receive buffer size field mask.
pub const RXDESC_1_RBS_MASK: u32 = 0x0FFF;
/// Control word: second address chained.
pub const RXDESC_1_RCH: u32 = 0x0000_4000;
/// Control word: end of ring.
pub const RXDESC_1_RER: u32 = 0x0000_8000;

/// Setting bits by `|` leaves every one of them set.
pub proof fn lemma_or_sets(w: u32, m: u32)
    by (bit_vector)
    ensures
        (w | m) & m == m,
{
}

/// Clearing bits by `& !` leaves every one of them clear.
pub proof fn lemma_andnot_clears(w: u32, m: u32)
    by (bit_vector)
    ensures
        (w & !m) & m == 0,
{
}

/// Clearing bits leaves the rest of the word as it was.
pub proof fn lemma_andnot_keeps_rest(w: u32, m: u32)
    by (bit_vector)
    ensures
        ((w & !m) & !m) == (w & !m),
{
}

/// Setting bits leaves the rest of the word as it was.
pub proof fn lemma_or_keeps_rest(w: u32, m: u32)
    by (bit_vector)
    ensures
        ((w | m) & !m) == (w & !m),
{
}

/// A fresh control word (chained mode and a size within its 12-bit field)
/// has no end-of-ring bit to mask away.
pub proof fn lemma_fresh_word1_no_rer(c: u32)
    by (bit_vector)
    requires
        c <= 0x0FFFu32,
    ensures
        ((0x4000u32 | c) & !0x8000u32) == (0x4000u32 | c),
{
}

/// Reprogramming the buffer size field leaves the end-of-ring flag alone.
pub proof fn lemma_rbs_update_keeps_rer(w: u32, c: u32)
    by (bit_vector)
    requires
        c <= 0x0FFFu32,
    ensures
        ((w & !0x0FFFu32) | c) & 0x8000u32 == w & 0x8000u32,
{
}

/// The reported frame length fits its 14-bit field.
pub proof fn lemma_frame_length_bounded(w: u32)
    by (bit_vector)
    ensures
        (w >> 16) & 0x3FFF <= 0x3FFF,
{
}

/// Whether a status word marks its descriptor as engine-owned.
pub open spec fn spec_owned(w0: u32) -> bool {
    w0 & RXDESC_0_OWN == RXDESC_0_OWN
}

/// Frame length reported in a receive status word.
pub open spec fn spec_frame_length(w0: u32) -> u32 {
    (w0 >> RXDESC_0_FL_SHIFT) & RXDESC_0_FL_MASK
}

/// One receive descriptor: the four hardware-visible 32-bit words and the
/// aligned address the record sits at.
///
/// Word 0 is the status word the engine closes a reception with; word 1
/// holds the buffer size and the chaining flags; word 2 points at the data
/// buffer; word 3 points at the next descriptor of the chain.
pub struct RxDescriptor {
    /// Status word.
    pub w0: u32,
    /// Control word: buffer size, chained mode, end-of-ring flag.
    pub w1: u32,
    /// Data buffer address.
    pub w2: u32,
    /// Next descriptor address (zero on the end-of-ring entry).
    pub w3: u32,
    /// Address of this record; 8-byte aligned, stable for its lifetime.
    pub addr: u32,
}

impl RxDescriptor {
    /// Allocate a descriptor record from `arena`, initialized to
    /// software-owned, chained mode, no buffer; `None` when the arena is
    /// exhausted.
    pub fn new(arena: &mut Arena) -> (r: Option<RxDescriptor>)
        requires
            old(arena).wf(),
        ensures
            final(arena).wf(),
            match r {
                Some(d) => {
                    &&& d.addr == old(arena).next
                    &&& d.addr % 8 == 0
                    &&& d.w0 == 0
                    &&& d.w1 == RXDESC_1_RCH
                    &&& d.w2 == 0
                    &&& d.w3 == 0
                    &&& final(arena).next == d.addr + DESC_SIZE
                    &&& d.addr < final(arena).next
                },
                None => {
                    &&& *final(arena) == *old(arena)
                    &&& old(arena).next + DESC_SIZE > u32::MAX
                },
            },
    {
        match arena.reserve(DESC_SIZE) {
            Some(a) => Some(RxDescriptor { w0: 0, w1: RXDESC_1_RCH, w2: 0, w3: 0, addr: a }),
            None => None,
        }
    }

    /// Is the descriptor owned by the DMA engine?
    pub fn is_owned(&self) -> (r: bool)
        ensures
            r == spec_owned(self.w0),
    {
        (self.w0 & RXDESC_0_OWN) == RXDESC_0_OWN
    }

    /// Hand the descriptor to the DMA engine.
    pub fn set_owned(&mut self)
        ensures
            final(self).w0 == old(self).w0 | RXDESC_0_OWN,
            final(self).w1 == old(self).w1,
            final(self).w2 == old(self).w2,
            final(self).w3 == old(self).w3,
            final(self).addr == old(self).addr,
            spec_owned(final(self).w0),
    {
        proof {
            lemma_or_sets(self.w0, RXDESC_0_OWN);
        }
        self.w0 = self.w0 | RXDESC_0_OWN;
    }

    /// Did the engine flag an error summary on this reception?
    pub fn has_error(&self) -> (r: bool)
        ensures
            r == (self.w0 & RXDESC_0_ES == RXDESC_0_ES),
    {
        (self.w0 & RXDESC_0_ES) == RXDESC_0_ES
    }

    /// Does the descriptor hold the first buffer of a frame?
    pub fn is_first(&self) -> (r: bool)
        ensures
            r == (self.w0 & RXDESC_0_FS == RXDESC_0_FS),
    {
        (self.w0 & RXDESC_0_FS) == RXDESC_0_FS
    }

    /// Does the descriptor hold the last buffer of a frame?
    pub fn is_last(&self) -> (r: bool)
        ensures
            r == (self.w0 & RXDESC_0_LS == RXDESC_0_LS),
    {
        (self.w0 & RXDESC_0_LS) == RXDESC_0_LS
    }

    /// Frame length the engine reported in the status word.
    pub fn frame_length(&self) -> (r: usize)
        ensures
            r == spec_frame_length(self.w0),
            r <= 0x3FFF,
    {
        proof {
            lemma_frame_length_bounded(self.w0);
        }
        let r = (self.w0 >> RXDESC_0_FL_SHIFT) & RXDESC_0_FL_MASK;
        r as usize
    }

    /// Program the data buffer address and size.
    pub fn set_buffer1(&mut self, buffer: u32, len: usize)
        requires
            len <= RXDESC_1_RBS_MASK,
        ensures
            final(self).w0 == old(self).w0,
            final(self).w1 == (old(self).w1 & !RXDESC_1_RBS_MASK) | len as u32,
            final(self).w2 == buffer,
            final(self).w3 == old(self).w3,
            final(self).addr == old(self).addr,
    {
        self.w2 = buffer;
        self.w1 = (self.w1 & !RXDESC_1_RBS_MASK) | len as u32;
    }

    /// Program the next-descriptor address (chained mode).
    pub fn set_buffer2(&mut self, buffer: u32)
        ensures
            final(self).w0 == old(self).w0,
            final(self).w1 == old(self).w1,
            final(self).w2 == old(self).w2,
            final(self).w3 == buffer,
            final(self).addr == old(self).addr,
    {
        self.w3 = buffer;
    }

    /// Mark this descriptor as the last of the ring.
    pub fn set_end_of_ring(&mut self)
        ensures
            final(self).w0 == old(self).w0,
            final(self).w1 == old(self).w1 | RXDESC_1_RER,
            final(self).w2 == old(self).w2,
            final(self).w3 == old(self).w3,
            final(self).addr == old(self).addr,
            final(self).w1 & RXDESC_1_RER == RXDESC_1_RER,
    {
        proof {
            lemma_or_sets(self.w1, RXDESC_1_RER);
        }
        self.w1 = self.w1 | RXDESC_1_RER;
    }

    /// Clear the end-of-ring mark; re-linking a grown ring moves the mark
    /// to the new last entry so that exactly one descriptor carries it.
    pub fn clear_end_of_ring(&mut self)
        ensures
            final(self).w0 == old(self).w0,
            final(self).w1 == old(self).w1 & !RXDESC_1_RER,
            final(self).w2 == old(self).w2,
            final(self).w3 == old(self).w3,
            final(self).addr == old(self).addr,
            final(self).w1 & RXDESC_1_RER == 0,
    {
        proof {
            lemma_andnot_clears(self.w1, RXDESC_1_RER);
        }
        self.w1 = self.w1 & !RXDESC_1_RER;
    }
}

/// Outcome of inspecting the descriptor at the cursor.
pub enum Taken {
    /// The engine still owns the descriptor: nothing ready.
    NotReady,
    /// The engine reported an error summary: the frame was dropped and the
    /// descriptor handed straight back.
    ErrorFrame,
    /// One piece of a frame spanning several descriptors: dropped, as
    /// reassembly is unsupported.
    Fragment,
    /// A whole single-descriptor frame, truncated to its reported length.
    Frame(Buffer),
}

/// One ring slot: a descriptor and the buffer it currently references.
pub struct RxRingEntry {
    /// The hardware descriptor record.
    pub desc: RxDescriptor,
    /// The buffer the descriptor's word 2 points at.
    pub buffer: Buffer,
}

impl RxRingEntry {
    /// The descriptor record sits aligned and points at the entry's buffer.
    pub open spec fn wf(self) -> bool {
        &&& self.desc.addr % 8 == 0
        &&& self.buffer.wf()
        &&& self.desc.w2 == self.buffer.addr
    }

    /// Allocate a descriptor and a fresh buffer of `capacity` bytes, program
    /// the descriptor with the buffer and hand it to the engine; `None` when
    /// the arena is exhausted.
    pub fn new(arena: &mut Arena, capacity: usize) -> (r: Option<RxRingEntry>)
        requires
            old(arena).wf(),
            capacity <= RXDESC_1_RBS_MASK,
        ensures
            final(arena).wf(),
            final(arena).next >= old(arena).next,
            match r {
                Some(e) => {
                    &&& e.wf()
                    &&& spec_owned(e.desc.w0)
                    &&& e.desc.w0 == RXDESC_0_OWN
                    &&& e.desc.w1 == RXDESC_1_RCH | capacity as u32
                    &&& e.desc.w3 == 0
                    &&& e.desc.addr == old(arena).next
                    &&& e.buffer.data.len() == capacity
                    &&& e.buffer.len == 0
                    &&& e.desc.addr < final(arena).next
                    &&& e.buffer.addr < final(arena).next
                    &&& final(arena).next ==
                        old(arena).next + DESC_SIZE + padded_size(capacity as u32)
                },
                None => {
                    &&& final(arena).next <= old(arena).next + DESC_SIZE
                    &&& old(arena).next + DESC_SIZE + padded_size(capacity as u32) > u32::MAX
                },
            },
    {
        let desc_opt = RxDescriptor::new(arena);
        match desc_opt {
            Some(mut desc) => {
                match Buffer::new(arena, capacity) {
                    Some(buffer) => {
                        desc.set_buffer1(buffer.address(), buffer.capacity());
                        desc.set_owned();
                        proof {
                            let c: u32 = capacity as u32;
                            assert(((0x4000u32 & !0xFFFu32) | c) == (0x4000u32 | c))
                                by (bit_vector)
                                requires c <= 0xFFFu32;
                            assert(0u32 | 0x8000_0000u32 == 0x8000_0000u32) by (bit_vector);
                        }
                        Some(RxRingEntry { desc, buffer })
                    },
                    None => None,
                }
            },
            None => None,
        }
    }

    /// Chain this entry to `next`, clearing any stale end-of-ring mark, or
    /// close the ring on `None`: a null successor and the end-of-ring mark,
    /// which makes the engine wrap to the registered head.
    pub fn set_next_buffer(&mut self, next: Option<&RxRingEntry>)
        ensures
            final(self).desc.w0 == old(self).desc.w0,
            final(self).desc.w2 == old(self).desc.w2,
            final(self).desc.addr == old(self).desc.addr,
            final(self).buffer == old(self).buffer,
            match next {
                Some(n) => {
                    &&& final(self).desc.w3 == n.desc.addr
                    &&& final(self).desc.w1 == old(self).desc.w1 & !RXDESC_1_RER
                    &&& final(self).desc.w1 & RXDESC_1_RER == 0
                },
                None => {
                    &&& final(self).desc.w3 == 0
                    &&& final(self).desc.w1 == old(self).desc.w1 | RXDESC_1_RER
                    &&& final(self).desc.w1 & RXDESC_1_RER == RXDESC_1_RER
                },
            },
    {
        match next {
            Some(next_entry) => {
                let ptr = next_entry.desc.addr;
                self.desc.set_buffer2(ptr);
                self.desc.clear_end_of_ring();
            },
            None => {
                self.desc.set_buffer2(0);
                self.desc.set_end_of_ring();
            },
        }
    }

    /// Inspect this entry for a completed reception and, on a whole
    /// single-descriptor frame, swap its filled buffer for a fresh one and
    /// hand the descriptor back to the engine.  Error frames and fragments
    /// of multi-descriptor frames are dropped: the descriptor goes straight
    /// back to the engine with its buffer pointer untouched.
    fn take_received(&mut self, arena: &mut Arena) -> (r: Taken)
        requires
            old(self).wf(),
            old(arena).wf(),
            old(self).buffer.addr < old(arena).next,
            old(self).buffer.data.len() <= RXDESC_1_RBS_MASK,
            old(arena).next + padded_size(old(self).buffer.data.len() as u32) <= u32::MAX,
        ensures
            final(self).wf(),
            final(arena).wf(),
            final(arena).next >= old(arena).next,
            final(self).desc.addr == old(self).desc.addr,
            final(self).desc.w3 == old(self).desc.w3,
            final(self).desc.w1 & RXDESC_1_RER == old(self).desc.w1 & RXDESC_1_RER,
            final(self).buffer.data.len() == old(self).buffer.data.len(),
            match r {
                Taken::NotReady => {
                    &&& spec_owned(old(self).desc.w0)
                    &&& *final(self) == *old(self)
                    &&& *final(arena) == *old(arena)
                },
                Taken::ErrorFrame => {
                    &&& !spec_owned(old(self).desc.w0)
                    &&& old(self).desc.w0 & RXDESC_0_ES == RXDESC_0_ES
                    &&& final(self).desc.w0 == old(self).desc.w0 | RXDESC_0_OWN
                    &&& spec_owned(final(self).desc.w0)
                    &&& final(self).desc.w1 == old(self).desc.w1
                    &&& final(self).desc.w2 == old(self).desc.w2
                    &&& final(self).buffer == old(self).buffer
                    &&& *final(arena) == *old(arena)
                },
                Taken::Fragment => {
                    &&& !spec_owned(old(self).desc.w0)
                    &&& old(self).desc.w0 & RXDESC_0_ES != RXDESC_0_ES
                    &&& !(old(self).desc.w0 & RXDESC_0_FS == RXDESC_0_FS
                        && old(self).desc.w0 & RXDESC_0_LS == RXDESC_0_LS)
                    &&& final(self).desc.w0 == old(self).desc.w0 | RXDESC_0_OWN
                    &&& spec_owned(final(self).desc.w0)
                    &&& final(self).desc.w1 == old(self).desc.w1
                    &&& final(self).desc.w2 == old(self).desc.w2
                    &&& final(self).buffer == old(self).buffer
                    &&& *final(arena) == *old(arena)
                },
                Taken::Frame(b) => {
                    let fl = spec_frame_length(old(self).desc.w0) as int;
                    let cap = old(self).buffer.data.len() as int;
                    &&& !spec_owned(old(self).desc.w0)
                    &&& old(self).desc.w0 & RXDESC_0_ES != RXDESC_0_ES
                    &&& old(self).desc.w0 & RXDESC_0_FS == RXDESC_0_FS
                    &&& old(self).desc.w0 & RXDESC_0_LS == RXDESC_0_LS
                    &&& b.wf()
                    &&& b.addr == old(self).buffer.addr
                    &&& b.data@ == old(self).buffer.data@
                    &&& b.len == if fl <= cap { fl } else { cap }
                    &&& final(self).desc.w0 == old(self).desc.w0 | RXDESC_0_OWN
                    &&& spec_owned(final(self).desc.w0)
                    &&& final(self).desc.w1 == (old(self).desc.w1 & !RXDESC_1_RBS_MASK)
                        | old(self).buffer.data.len() as u32
                    &&& final(self).desc.w2 == final(self).buffer.addr
                    &&& final(self).buffer.addr == old(arena).next
                    &&& final(self).buffer.addr != b.addr
                    &&& final(self).buffer.len == 0
                    &&& final(self).buffer.addr < final(arena).next
                    &&& final(arena).next > old(arena).next
                },
            },
    {
        if self.desc.is_owned() {
            Taken::NotReady
        } else if self.desc.has_error() {
            self.desc.set_owned();
            Taken::ErrorFrame
        } else if self.desc.is_first() && self.desc.is_last() {
            let cap = self.buffer.capacity();
            match Buffer::new(arena, cap) {
                Some(mut pkt) => {
                    // `pkt` is the fresh empty buffer; swap it into the
                    // entry and keep the filled one.
                    core::mem::swap(&mut self.buffer, &mut pkt);
                    let frame_length = self.desc.frame_length();
                    let take = if frame_length <= cap { frame_length } else { cap };
                    pkt.set_len(take);
                    let new_addr = self.buffer.address();
                    let new_cap = self.buffer.capacity();
                    self.desc.set_buffer1(new_addr, new_cap);
                    self.desc.set_owned();
                    proof {
                        lemma_rbs_update_keeps_rer(
                            old(self).desc.w1,
                            old(self).buffer.data.len() as u32,
                        );
                    }
                    Taken::Frame(pkt)
                },
                None => {
                    // Unreachable: the arena headroom demanded above covers
                    // exactly this allocation.
                    proof {
                        assert(false);
                    }
                    Taken::NotReady
                },
            }
        } else {
            self.desc.set_owned();
            Taken::Fragment
        }
    }
}

/// Base address of the heap region receive descriptors and buffers are
/// carved from.
pub const RX_ARENA_BASE: u32 = 0x2000_0000;

/// Largest ring length `start` accepts; a longer chain could not fit the
/// 32-bit address space the descriptors live in.
pub const MAX_RING_LEN: usize = 0x0010_0000;

/// The entries form one circular chain in insertion order: each descriptor's
/// word 3 names its successor's address, and exactly the last entry carries
/// the end-of-ring flag with a null successor (the engine then wraps to the
/// registered head).
pub open spec fn chain_linked(s: Seq<RxRingEntry>) -> bool {
    &&& forall|i: int|
        0 <= i < s.len() - 1 ==> (#[trigger] s[i]).desc.w3 == s[i + 1].desc.addr
            && s[i].desc.w1 & RXDESC_1_RER == 0
    &&& s.len() > 0 ==> s[s.len() - 1].desc.w3 == 0
        && s[s.len() - 1].desc.w1 & RXDESC_1_RER == RXDESC_1_RER
}

/// In a linked chain the end-of-ring mark sits on the last entry and on no
/// other: walking the ring passes exactly one.
pub proof fn lemma_chain_one_end_mark(s: Seq<RxRingEntry>)
    requires
        chain_linked(s),
        s.len() > 0,
    ensures
        forall|i: int|
            0 <= i < s.len() ==> (((#[trigger] s[i]).desc.w1 & RXDESC_1_RER == RXDESC_1_RER)
                <==> i == s.len() - 1),
{
    assert forall|i: int| 0 <= i < s.len() - 1 implies (#[trigger] s[i]).desc.w1
        & RXDESC_1_RER != RXDESC_1_RER by {
        assert(s[i].desc.w1 & RXDESC_1_RER == 0);
    }
}

/// Every descriptor and buffer address of a well-formed ring has its low 3
/// bits zero: the hardware truncates them, so nothing may sit there.
pub proof fn lemma_ring_alignment(r: RxRing)
    requires
        r.wf(),
    ensures
        forall|i: int|
            0 <= i < r.entries@.len() ==> ((#[trigger] r.entries@[i]).desc.addr % 8 == 0
                && r.entries@[i].buffer.addr % 8 == 0),
{
}

/// The receive process status code the engine reports.
pub open spec fn rx_status_bits(dma: DmaRegisters) -> u32 {
    (dma.dmasr >> DMASR_RPS_SHIFT) & 7
}

/// After a consumed entry the ring self-heals a stalled engine: when the
/// observed state was `Stopped`, the receive poll demand register was
/// written; otherwise the register block is untouched.
pub open spec fn rx_poll_effect(pre: DmaRegisters, post: DmaRegisters) -> bool {
    if spec_running_state(rx_status_bits(pre)) == RunningState::Stopped {
        post == (DmaRegisters { dmarpdr: 1, ..pre })
    } else {
        post == pre
    }
}

/// Receive DMA ring: the ordered entries, the cursor naming the entry next
/// due for software, and the arena its records were placed in.
pub struct RxRing {
    /// Capacity of every receive buffer (the MTU).
    pub buffer_size: usize,
    /// The ring entries, in insertion order.
    pub entries: Vec<RxRingEntry>,
    /// Index of the entry software inspects next; wraps at the ring end.
    pub next_entry: usize,
    /// Source of aligned descriptor and buffer addresses.
    pub arena: Arena,
}

impl RxRing {
    /// Every entry is well formed, sized to the ring's buffer capacity and
    /// placed below the arena's watermark; the cursor stays in range.
    pub open spec fn wf(self) -> bool {
        &&& self.arena.wf()
        &&& self.buffer_size <= RXDESC_1_RBS_MASK
        &&& forall|i: int|
            0 <= i < self.entries@.len() ==> (#[trigger] self.entries@[i]).wf()
                && self.entries@[i].buffer.data.len() == self.buffer_size
                && self.entries@[i].desc.addr < self.arena.next
                && self.entries@[i].buffer.addr < self.arena.next
        &&& if self.entries@.len() == 0 {
            self.next_entry == 0
        } else {
            self.next_entry < self.entries@.len()
        }
    }

    /// Arena bytes a `start(ring_length, _)` call still has to reserve.
    pub open spec fn grow_cost(self, ring_length: int) -> int {
        if ring_length > self.entries@.len() {
            (ring_length - self.entries@.len())
                * (DESC_SIZE + padded_size(self.buffer_size as u32))
        } else {
            0
        }
    }

    /// An empty ring scoped to a fixed per-buffer capacity.
    pub fn new(buffer_size: usize) -> (r: RxRing)
        requires
            buffer_size <= RXDESC_1_RBS_MASK,
        ensures
            r.wf(),
            r.buffer_size == buffer_size,
            r.entries@.len() == 0,
            r.next_entry == 0,
            r.arena.next == RX_ARENA_BASE,
    {
        RxRing {
            buffer_size,
            entries: Vec::new(),
            next_entry: 0,
            arena: Arena::new(RX_ARENA_BASE),
        }
    }

    /// Grow the entry set to at least `ring_length`, link every entry (old
    /// and new) into one circular chain, register the head with the engine
    /// and start reception.  Growing preserves existing entries' buffers and
    /// ownership state; shrinking is not supported.  Fails only when the
    /// arena cannot hold the new entries, which aborts the start untouched.
    pub fn start(&mut self, ring_length: usize, dma: &mut DmaRegisters) -> (r: Result<
        (),
        crate::EthError,
    >)
        requires
            old(self).wf(),
            1 <= ring_length <= MAX_RING_LEN,
        ensures
            match r {
                Ok(()) => {
                    let n = final(self).entries@.len() as int;
                    &&& final(self).wf()
                    &&& final(self).buffer_size == old(self).buffer_size
                    &&& n == if ring_length > old(self).entries@.len() {
                        ring_length as int
                    } else {
                        old(self).entries@.len() as int
                    }
                    &&& chain_linked(final(self).entries@)
                    &&& final(self).next_entry == 0
                    &&& forall|j: int|
                        0 <= j < old(self).entries@.len() ==> {
                            &&& (#[trigger] final(self).entries@[j]).buffer
                                == old(self).entries@[j].buffer
                            &&& final(self).entries@[j].desc.addr
                                == old(self).entries@[j].desc.addr
                            &&& final(self).entries@[j].desc.w0
                                == old(self).entries@[j].desc.w0
                            &&& final(self).entries@[j].desc.w1 & !RXDESC_1_RER
                                == old(self).entries@[j].desc.w1 & !RXDESC_1_RER
                            &&& final(self).entries@[j].desc.w2
                                == old(self).entries@[j].desc.w2
                        }
                    &&& forall|j: int|
                        old(self).entries@.len() <= j < n ==> {
                            &&& (#[trigger] final(self).entries@[j]).desc.w0 == RXDESC_0_OWN
                            &&& final(self).entries@[j].desc.w1 & !RXDESC_1_RER
                                == RXDESC_1_RCH | old(self).buffer_size as u32
                            &&& final(self).entries@[j].buffer.len == 0
                            &&& final(self).entries@[j].buffer.data.len()
                                == old(self).buffer_size
                        }
                    &&& *final(dma) == (DmaRegisters {
                        dmardlar: final(self).entries@[0].desc.addr,
                        dmaomr: old(dma).dmaomr | DMAOMR_SR,
                        dmarpdr: 1,
                        ..*old(dma)
                    })
                    &&& old(self).arena.next + old(self).grow_cost(ring_length as int)
                        <= u32::MAX
                },
                Err(e) => {
                    &&& e == crate::EthError::AllocationFailure
                    &&& *final(self) == *old(self)
                    &&& *final(dma) == *old(dma)
                    &&& old(self).arena.next + old(self).grow_cost(ring_length as int)
                        > u32::MAX
                },
            },
    {
        let old_len = self.entries.len();

        // Reserve room for the missing entries up front, so that a full
        // arena aborts the start before anything is touched.
        if ring_length > old_len {
            let grow = ring_length - old_len;
            let bs = self.buffer_size as u32;
            let pad: u32 = if bs == 0 {
                8
            } else {
                ((bs + 7) / 8) * 8
            };
            let per: u32 = DESC_SIZE + pad;
            assert(per == DESC_SIZE + padded_size(bs));
            assert(per as int * grow as int <= 4112 * 0x0010_0000) by (nonlinear_arith)
                requires per <= 4112 && grow <= 0x0010_0000;
            if (self.arena.next as u64) + (per as u64) * (grow as u64) > u32::MAX as u64 {
                return Err(crate::EthError::AllocationFailure);
            }

            while self.entries.len() < ring_length
                invariant
                    self.wf(),
                    self.buffer_size == old(self).buffer_size,
                    self.next_entry == old(self).next_entry,
                    old_len == old(self).entries@.len(),
                    old_len <= self.entries@.len() <= ring_length,
                    per == DESC_SIZE + padded_size(self.buffer_size as u32),
                    self.arena.next + per * (ring_length - self.entries@.len()) <= u32::MAX,
                    forall|j: int|
                        0 <= j < old_len ==> #[trigger] self.entries@[j]
                            == old(self).entries@[j],
                    forall|j: int|
                        old_len <= j < self.entries@.len() ==> {
                            &&& (#[trigger] self.entries@[j]).desc.w0 == RXDESC_0_OWN
                            &&& self.entries@[j].desc.w1 == RXDESC_1_RCH | (
                            self.buffer_size as u32)
                            &&& self.entries@[j].buffer.len == 0
                            &&& self.entries@[j].buffer.data.len() == self.buffer_size
                        },
                decreases ring_length - self.entries@.len(),
            {
                proof {
                    let rem = ring_length - self.entries@.len();
                    assert(per * (rem - 1) == per * rem - per) by (nonlinear_arith);
                    assert(per * rem >= per) by (nonlinear_arith)
                        requires rem >= 1 && per >= 1;
                }
                let bsz = self.buffer_size;
                match RxRingEntry::new(&mut self.arena, bsz) {
                    Some(e) => {
                        self.entries.push(e);
                    },
                    None => {
                        // Unreachable: the room check above covers every
                        // entry still to come.
                        proof {
                            assert(false);
                        }
                        return Err(crate::EthError::AllocationFailure);
                    },
                }
            }
        }
        proof {
            if ring_length > old(self).entries@.len() {
                assert(self.entries@.len() == ring_length);
            }
        }

        // Link all entries, old and new, into one circular chain; the
        // end-of-ring mark moves to the (possibly new) last entry.
        let n = self.entries.len();
        let ghost mid = self.entries@;
        let ghost mid_arena = self.arena;
        let mut i: usize = 0;
        while i + 1 < n
            invariant
                n == self.entries@.len(),
                1 <= n,
                i <= n - 1,
                self.arena == mid_arena,
                self.buffer_size == old(self).buffer_size,
                self.next_entry == old(self).next_entry,
                mid.len() == n,
                forall|j: int|
                    0 <= j < i ==> {
                        &&& (#[trigger] self.entries@[j]).desc.w3 == mid[j + 1].desc.addr
                        &&& self.entries@[j].desc.w1 == mid[j].desc.w1 & !RXDESC_1_RER
                        &&& self.entries@[j].desc.w0 == mid[j].desc.w0
                        &&& self.entries@[j].desc.w2 == mid[j].desc.w2
                        &&& self.entries@[j].desc.addr == mid[j].desc.addr
                        &&& self.entries@[j].buffer == mid[j].buffer
                    },
                forall|j: int| i <= j < n ==> #[trigger] self.entries@[j] == mid[j],
            decreases n - i,
        {
            let next_addr = self.entries[i + 1].desc.addr;
            let d = &mut self.entries[i].desc;
            d.set_buffer2(next_addr);
            d.clear_end_of_ring();
            i = i + 1;
        }
        let e = &mut self.entries[n - 1];
        e.set_next_buffer(None);

        proof {
            assert forall|j: int| 0 <= j < self.entries@.len() implies (
                #[trigger] self.entries@[j]).wf()
                && self.entries@[j].buffer.data.len() == self.buffer_size
                && self.entries@[j].desc.addr < self.arena.next
                && self.entries@[j].buffer.addr < self.arena.next by {
                assert(mid[j].wf());
            }
            assert forall|j: int| 0 <= j < self.entries@.len() - 1 implies (
                #[trigger] self.entries@[j]).desc.w3 == self.entries@[j + 1].desc.addr
                && self.entries@[j].desc.w1 & RXDESC_1_RER == 0 by {
                lemma_andnot_clears(mid[j].desc.w1, RXDESC_1_RER);
            }
            // Re-linking only moves the end-of-ring mark: the rest of every
            // control word survives.
            assert forall|j: int| 0 <= j < self.entries@.len() implies (
                #[trigger] self.entries@[j]).desc.w1 & !RXDESC_1_RER == mid[j].desc.w1
                & !RXDESC_1_RER by {
                if j < self.entries@.len() - 1 {
                    lemma_andnot_keeps_rest(mid[j].desc.w1, RXDESC_1_RER);
                } else {
                    lemma_or_keeps_rest(mid[j].desc.w1, RXDESC_1_RER);
                }
            }
            lemma_fresh_word1_no_rer(old(self).buffer_size as u32);
        }

        self.next_entry = 0;
        let head = self.entries[0].desc.addr;
        dma.dmardlar = head;
        dma.dmaomr = dma.dmaomr | DMAOMR_SR;
        self.demand_poll(dma);
        Ok(())
    }

    /// Write the receive poll demand register, prompting a stalled engine to
    /// re-check the descriptor it is pointed at.
    pub fn demand_poll(&self, dma: &mut DmaRegisters)
        ensures
            *final(dma) == (DmaRegisters { dmarpdr: 1, ..*old(dma) }),
    {
        dma.dmarpdr = 1;
    }

    /// Decode the engine's receive process state from the status register.
    pub fn running_state(&self, dma: &DmaRegisters) -> (r: RunningState)
        ensures
            r == spec_running_state(rx_status_bits(*dma)),
    {
        decode_running_state((dma.dmasr >> DMASR_RPS_SHIFT) & 7)
    }

    /// Receive the next packet if one is ready, or return `None` at once.
    ///
    /// The entry at the cursor is inspected.  While the engine owns it,
    /// nothing is ready and nothing changes.  A completed single-descriptor
    /// frame comes back as its buffer, truncated to the reported length and
    /// replaced in the entry by a fresh one whose address differs; the
    /// descriptor returns to the engine and the cursor advances.  An error
    /// frame is dropped with the buffer pointer untouched and the cursor
    /// held; a fragment of a multi-descriptor frame is dropped and the
    /// cursor advances past it.  After any consumed entry, an engine
    /// observed `Stopped` is prompted with a poll demand.
    pub fn recv_next(&mut self, dma: &mut DmaRegisters) -> (r: Option<Buffer>)
        requires
            old(self).wf(),
            old(self).entries@.len() > 0,
            old(self).arena.next + padded_size(old(self).buffer_size as u32) <= u32::MAX,
        ensures
            final(self).wf(),
            final(self).buffer_size == old(self).buffer_size,
            final(self).entries@.len() == old(self).entries@.len(),
            ({
                let i = old(self).next_entry as int;
                let e = old(self).entries@[i];
                let w0 = e.desc.w0;
                if spec_owned(w0) {
                    &&& r is None
                    &&& final(self).entries@ == old(self).entries@
                    &&& final(self).next_entry == old(self).next_entry
                    &&& final(self).arena == old(self).arena
                    &&& *final(dma) == *old(dma)
                } else if w0 & RXDESC_0_ES == RXDESC_0_ES {
                    &&& r is None
                    &&& final(self).next_entry == old(self).next_entry
                    &&& final(self).arena == old(self).arena
                    &&& final(self).entries@[i].desc.w0 == w0 | RXDESC_0_OWN
                    &&& spec_owned(final(self).entries@[i].desc.w0)
                    &&& final(self).entries@[i].desc.w1 == e.desc.w1
                    &&& final(self).entries@[i].desc.w2 == e.desc.w2
                    &&& final(self).entries@[i].desc.w3 == e.desc.w3
                    &&& final(self).entries@[i].desc.addr == e.desc.addr
                    &&& final(self).entries@[i].buffer == e.buffer
                    &&& forall|j: int|
                        0 <= j < old(self).entries@.len() && j != i
                            ==> #[trigger] final(self).entries@[j] == old(self).entries@[j]
                    &&& rx_poll_effect(*old(dma), *final(dma))
                } else if w0 & RXDESC_0_FS == RXDESC_0_FS && w0 & RXDESC_0_LS == RXDESC_0_LS {
                    let fl = spec_frame_length(w0) as int;
                    let cap = e.buffer.data.len() as int;
                    &&& r matches Some(b) ==> {
                        &&& b.wf()
                        &&& b.addr == e.buffer.addr
                        &&& b.data@ == e.buffer.data@
                        &&& b.len == if fl <= cap { fl } else { cap }
                        &&& b.addr != final(self).entries@[i].buffer.addr
                    }
                    &&& r is Some
                    &&& final(self).next_entry == (if i + 1 == old(self).entries@.len() { 0int } else { i + 1 })
                    &&& final(self).entries@[i].desc.w0 == w0 | RXDESC_0_OWN
                    &&& spec_owned(final(self).entries@[i].desc.w0)
                    &&& final(self).entries@[i].desc.w3 == e.desc.w3
                    &&& final(self).entries@[i].desc.addr == e.desc.addr
                    &&& final(self).entries@[i].desc.w2
                        == final(self).entries@[i].buffer.addr
                    &&& final(self).entries@[i].buffer.addr == old(self).arena.next
                    &&& final(self).entries@[i].buffer.len == 0
                    &&& final(self).entries@[i].buffer.data.len() == cap
                    &&& final(self).entries@[i].desc.w1 & RXDESC_1_RER
                        == e.desc.w1 & RXDESC_1_RER
                    &&& forall|j: int|
                        0 <= j < old(self).entries@.len() && j != i
                            ==> #[trigger] final(self).entries@[j] == old(self).entries@[j]
                    &&& final(self).arena.next > old(self).arena.next
                    &&& rx_poll_effect(*old(dma), *final(dma))
                } else {
                    &&& r is None
                    &&& final(self).next_entry == (if i + 1 == old(self).entries@.len() { 0int } else { i + 1 })
                    &&& final(self).arena == old(self).arena
                    &&& final(self).entries@[i].desc.w0 == w0 | RXDESC_0_OWN
                    &&& spec_owned(final(self).entries@[i].desc.w0)
                    &&& final(self).entries@[i].desc.w1 == e.desc.w1
                    &&& final(self).entries@[i].desc.w2 == e.desc.w2
                    &&& final(self).entries@[i].desc.w3 == e.desc.w3
                    &&& final(self).entries@[i].desc.addr == e.desc.addr
                    &&& final(self).entries@[i].buffer == e.buffer
                    &&& forall|j: int|
                        0 <= j < old(self).entries@.len() && j != i
                            ==> #[trigger] final(self).entries@[j] == old(self).entries@[j]
                    &&& rx_poll_effect(*old(dma), *final(dma))
                }
            }),
    {
        let idx = self.next_entry;
        let len = self.entries.len();
        let entry = &mut self.entries[idx];
        let taken = entry.take_received(&mut self.arena);
        match taken {
            Taken::NotReady => {
                proof {
                    assert(self.entries@ =~= old(self).entries@);
                }
                None
            },
            Taken::ErrorFrame => {
                let state = self.running_state(dma);
                if matches!(state, RunningState::Stopped) {
                    self.demand_poll(dma);
                }
                None
            },
            Taken::Fragment => {
                self.next_entry = if idx + 1 >= len {
                    0
                } else {
                    idx + 1
                };
                let state = self.running_state(dma);
                if matches!(state, RunningState::Stopped) {
                    self.demand_poll(dma);
                }
                None
            },
            Taken::Frame(pkt) => {
                self.next_entry = if idx + 1 >= len {
                    0
                } else {
                    idx + 1
                };
                let state = self.running_state(dma);
                if matches!(state, RunningState::Stopped) {
                    self.demand_poll(dma);
                }
                Some(pkt)
            },
        }
    }
}

/// Running state of a DMA process, decoded from its 3-bit status code.
#[derive(PartialEq, Eq, Structural, Clone, Copy, Debug)]
pub enum RunningState {
    /// A status code the decode table does not document.
    Unknown,
    /// Reset or stop issued, or no descriptor available.
    Stopped,
    /// Fetching, waiting, closing or transferring.
    Running,
}

/// The fixed mapping from a 3-bit process status code to a running state:
/// codes 0 (stopped) and 4 (descriptor unavailable) are `Stopped`; codes 1
/// (fetching), 3 (waiting), 5 (closing) and 7 (transferring) are `Running`;
/// anything else is `Unknown`.
pub open spec fn spec_running_state(bits: u32) -> RunningState {
    if bits == 0 || bits == 4 {
        RunningState::Stopped
    } else if bits == 1 || bits == 3 || bits == 5 || bits == 7 {
        RunningState::Running
    } else {
        RunningState::Unknown
    }
}

/// Decode a 3-bit process status code; a pure function of the code alone.
pub fn decode_running_state(bits: u32) -> (r: RunningState)
    ensures
        r == spec_running_state(bits),
{
    match bits {
        0 => RunningState::Stopped,
        1 => RunningState::Running,
        3 => RunningState::Running,
        4 => RunningState::Stopped,
        5 => RunningState::Running,
        7 => RunningState::Running,
        _ => RunningState::Unknown,
    }
}

impl RunningState {
    /// Whether this state is `RunningState::Running`.
    pub fn is_running(&self) -> (r: bool)
        ensures
            r == (*self == RunningState::Running),
    {
        match self {
            RunningState::Running => true,
            _ => false,
        }
    }
}

} // verus!
