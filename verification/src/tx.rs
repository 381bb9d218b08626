//! Transmit descriptor ring.
//!
//! Mirrors the receive ring with transmit semantics: software installs a
//! frame at the cursor, hands the descriptor to the engine by setting its
//! ownership bit, and the engine clears the bit once the frame has left.
//! Frames are never fragmented across descriptors: every send sets both the
//! first-segment and last-segment flags.  Once the engine clears an entry's
//! ownership bit, that entry's buffer must be released before the cursor
//! wraps back onto the slot; `send` reclaims lazily on reuse and [`TxRing::reap`]
//! releases eagerly.

use vstd::prelude::*;

use crate::buffer::{Arena, Buffer, DESC_SIZE};
use crate::regs::{DmaRegisters, DMAOMR_ST, DMASR_TPS_SHIFT};
use crate::rx::{
    decode_running_state, spec_owned, spec_running_state, RunningState, MAX_RING_LEN,
};

verus! {

/// Status word: descriptor is owned by the DMA engine.
pub const TXDESC_0_OWN: u32 = 0x8000_0000;
/// Status word: descriptor holds the last segment of a frame.
pub const TXDESC_0_LS: u32 = 0x2000_0000;
/// Status word: descriptor holds the first segment of a frame.
pub const TXDESC_0_FS: u32 = 0x1000_0000;
/// Status word: end of ring.
pub const TXDESC_0_TER: u32 = 0x0020_0000;
/// Status word: second address chained.
pub const TXDESC_0_TCH: u32 = 0x0010_0000;
/// Control word: transmit buffer size field mask.
pub const TXDESC_1_TBS_MASK: u32 = 0x1FFF;

/// Installing a frame sets first-segment, last-segment and ownership in one
/// write; ownership is set afterwards.
pub proof fn lemma_install_sets_own(w: u32)
    by (bit_vector)
    ensures
        (w | 0xB000_0000u32) & 0x8000_0000u32 == 0x8000_0000u32,
{
}

/// A freshly initialized transmit status word is software-owned, with or
/// without the end-of-ring mark.
pub proof fn lemma_init_word_not_owned()
    by (bit_vector)
    ensures
        0x0010_0000u32 & 0x8000_0000u32 != 0x8000_0000u32,
        (0x0010_0000u32 | 0x0020_0000u32) & 0x8000_0000u32 != 0x8000_0000u32,
{
}

/// Base address of the heap region transmit descriptors are carved from.
pub const TX_ARENA_BASE: u32 = 0x2010_0000;

/// One transmit descriptor: the four hardware-visible 32-bit words and the
/// aligned address the record sits at.
///
/// Word 0 is the control/status word (ownership, segment flags, chaining,
/// end-of-ring); word 1 holds the buffer size; word 2 points at the data
/// buffer; word 3 points at the next descriptor of the chain.
pub struct TxDescriptor {
    /// Control/status word.
    pub w0: u32,
    /// Buffer size word.
    pub w1: u32,
    /// Data buffer address.
    pub w2: u32,
    /// Next descriptor address (zero on the end-of-ring entry).
    pub w3: u32,
    /// Address of this record; 8-byte aligned, stable for its lifetime.
    pub addr: u32,
}

impl TxDescriptor {
    /// Allocate a descriptor record from `arena`, initialized to
    /// software-owned chained mode with no buffer; `None` when the arena is
    /// exhausted.
    pub fn new(arena: &mut Arena) -> (r: Option<TxDescriptor>)
        requires
            old(arena).wf(),
        ensures
            final(arena).wf(),
            match r {
                Some(d) => {
                    &&& d.addr == old(arena).next
                    &&& d.addr % 8 == 0
                    &&& d.w0 == TXDESC_0_TCH
                    &&& d.w1 == 0
                    &&& d.w2 == 0
                    &&& d.w3 == 0
                    &&& final(arena).next == d.addr + DESC_SIZE
                    &&& d.addr < final(arena).next
                },
                None => {
                    &&& *final(arena) == *old(arena)
                    &&& old(arena).next + DESC_SIZE > u32::MAX
                },
            },
    {
        match arena.reserve(DESC_SIZE) {
            Some(a) => Some(TxDescriptor { w0: TXDESC_0_TCH, w1: 0, w2: 0, w3: 0, addr: a }),
            None => None,
        }
    }

    /// Is the descriptor owned by the DMA engine?
    pub fn is_owned(&self) -> (r: bool)
        ensures
            r == spec_owned(self.w0),
    {
        (self.w0 & TXDESC_0_OWN) == TXDESC_0_OWN
    }
}

/// One ring slot: a descriptor and the buffer it currently holds in flight,
/// if any.
pub struct TxRingEntry {
    /// The hardware descriptor record.
    pub desc: TxDescriptor,
    /// The frame installed at this slot, until it is reclaimed.
    pub buffer: Option<Buffer>,
}

impl TxRingEntry {
    /// The descriptor sits aligned; an installed buffer is well formed and
    /// is what word 2 points at.
    pub open spec fn wf(self) -> bool {
        &&& self.desc.addr % 8 == 0
        &&& self.buffer matches Some(b) ==> b.wf() && self.desc.w2 == self.buffer->0.addr
    }
}

/// 1 for an engine-owned entry, else 0.
pub open spec fn entry_cost(e: TxRingEntry) -> int {
    if spec_owned(e.desc.w0) {
        1
    } else {
        0
    }
}

/// Number of engine-owned entries among the first `n`.
pub open spec fn count_owned_to(s: Seq<TxRingEntry>, n: int) -> int
    decreases n,
{
    if n <= 0 {
        0
    } else {
        count_owned_to(s, n - 1) + entry_cost(s[n - 1])
    }
}

/// Number of engine-owned entries: the transmit backlog.
pub open spec fn queue_count(s: Seq<TxRingEntry>) -> int {
    count_owned_to(s, s.len() as int)
}

/// Updating one entry moves the count by that entry's cost difference.
pub proof fn lemma_count_update(s: Seq<TxRingEntry>, i: int, e: TxRingEntry, n: int)
    requires
        0 <= i < s.len(),
        n <= s.len(),
    ensures
        count_owned_to(s.update(i, e), n) == count_owned_to(s, n) + (if i < n {
            entry_cost(e) - entry_cost(s[i])
        } else {
            0
        }),
    decreases n,
{
    if n > 0 {
        lemma_count_update(s, i, e, n - 1);
    }
}

/// A prefix of software-owned entries counts zero.
pub proof fn lemma_count_zero(s: Seq<TxRingEntry>, n: int)
    requires
        n <= s.len(),
        forall|j: int| 0 <= j < n ==> !spec_owned((#[trigger] s[j]).desc.w0),
    ensures
        count_owned_to(s, n) == 0,
    decreases n,
{
    if n > 0 {
        lemma_count_zero(s, n - 1);
    }
}

/// The count depends on the status words alone.
pub proof fn lemma_count_same(s: Seq<TxRingEntry>, t: Seq<TxRingEntry>, n: int)
    requires
        n <= s.len(),
        n <= t.len(),
        forall|j: int| 0 <= j < n ==> (#[trigger] s[j]).desc.w0 == t[j].desc.w0,
    ensures
        count_owned_to(s, n) == count_owned_to(t, n),
    decreases n,
{
    if n > 0 {
        lemma_count_same(s, t, n - 1);
    }
}

/// The entries form one circular chain in insertion order: each
/// descriptor's word 3 names its successor's address, and exactly the last
/// entry carries the end-of-ring flag with a null successor.
pub open spec fn tx_chain_linked(s: Seq<TxRingEntry>) -> bool {
    &&& forall|i: int|
        0 <= i < s.len() - 1 ==> (#[trigger] s[i]).desc.w3 == s[i + 1].desc.addr
            && s[i].desc.w0 & TXDESC_0_TER == 0
    &&& s.len() > 0 ==> s[s.len() - 1].desc.w3 == 0
        && s[s.len() - 1].desc.w0 & TXDESC_0_TER == TXDESC_0_TER
}

/// In a linked transmit chain the end-of-ring mark sits on the last entry
/// and on no other.
pub proof fn lemma_tx_chain_one_end_mark(s: Seq<TxRingEntry>)
    requires
        tx_chain_linked(s),
        s.len() > 0,
    ensures
        forall|i: int|
            0 <= i < s.len() ==> (((#[trigger] s[i]).desc.w0 & TXDESC_0_TER == TXDESC_0_TER)
                <==> i == s.len() - 1),
{
    assert forall|i: int| 0 <= i < s.len() - 1 implies (#[trigger] s[i]).desc.w0
        & TXDESC_0_TER != TXDESC_0_TER by {
        assert(s[i].desc.w0 & TXDESC_0_TER == 0);
    }
}

/// Every descriptor address of a well-formed transmit ring has its low 3
/// bits zero.
pub proof fn lemma_tx_ring_alignment(r: TxRing)
    requires
        r.wf(),
    ensures
        forall|i: int| 0 <= i < r.entries@.len() ==> (#[trigger] r.entries@[i]).desc.addr % 8
            == 0,
{
}

/// The transmit process status code the engine reports.
pub open spec fn tx_status_bits(dma: DmaRegisters) -> u32 {
    (dma.dmasr >> DMASR_TPS_SHIFT) & 7
}

/// Transmit DMA ring: the ordered entries, the send cursor, and the arena
/// its records were placed in.
pub struct TxRing {
    /// The ring entries, in insertion order.
    pub entries: Vec<TxRingEntry>,
    /// Index of the entry the next send installs into; wraps at the ring
    /// end.
    pub next_entry: usize,
    /// Source of aligned descriptor addresses.
    pub arena: Arena,
}

impl TxRing {
    /// Every entry is well formed and placed below the arena's watermark;
    /// the cursor stays in range.
    pub open spec fn wf(self) -> bool {
        &&& self.arena.wf()
        &&& forall|i: int|
            0 <= i < self.entries@.len() ==> (#[trigger] self.entries@[i]).wf()
                && self.entries@[i].desc.addr < self.arena.next
        &&& if self.entries@.len() == 0 {
            self.next_entry == 0
        } else {
            self.next_entry < self.entries@.len()
        }
    }

    /// Arena bytes a `start(ring_length, _)` call still has to reserve.
    pub open spec fn grow_cost(self, ring_length: int) -> int {
        if ring_length > self.entries@.len() {
            (ring_length - self.entries@.len()) * DESC_SIZE
        } else {
            0
        }
    }

    /// An empty ring.
    pub fn new() -> (r: TxRing)
        ensures
            r.wf(),
            r.entries@.len() == 0,
            r.next_entry == 0,
            r.arena.next == TX_ARENA_BASE,
    {
        TxRing { entries: Vec::new(), next_entry: 0, arena: Arena::new(TX_ARENA_BASE) }
    }

    /// Grow the entry set to at least `ring_length`, initialize every
    /// descriptor to software-owned chained mode with no buffer, link the
    /// circular chain, register the head with the engine and enable
    /// transmission.  Fails only when the arena cannot hold the new
    /// entries, which aborts the start untouched.
    pub fn start(&mut self, ring_length: usize, dma: &mut DmaRegisters) -> (r: Result<
        (),
        crate::EthError,
    >)
        requires
            old(self).wf(),
            1 <= ring_length <= MAX_RING_LEN,
        ensures
            match r {
                Ok(()) => {
                    let n = final(self).entries@.len() as int;
                    &&& final(self).wf()
                    &&& n == if ring_length > old(self).entries@.len() {
                        ring_length as int
                    } else {
                        old(self).entries@.len() as int
                    }
                    &&& tx_chain_linked(final(self).entries@)
                    &&& final(self).next_entry == 0
                    &&& forall|j: int|
                        0 <= j < n ==> {
                            &&& (#[trigger] final(self).entries@[j]).buffer is None
                            &&& final(self).entries@[j].desc.w1 == 0
                            &&& final(self).entries@[j].desc.w2 == 0
                            &&& !spec_owned(final(self).entries@[j].desc.w0)
                        }
                    &&& forall|j: int|
                        0 <= j < old(self).entries@.len()
                            ==> (#[trigger] final(self).entries@[j]).desc.addr
                            == old(self).entries@[j].desc.addr
                    &&& queue_count(final(self).entries@) == 0
                    &&& *final(dma) == (DmaRegisters {
                        dmatdlar: final(self).entries@[0].desc.addr,
                        dmaomr: old(dma).dmaomr | DMAOMR_ST,
                        ..*old(dma)
                    })
                    &&& old(self).arena.next + old(self).grow_cost(ring_length as int)
                        <= u32::MAX
                },
                Err(e) => {
                    &&& e == crate::EthError::AllocationFailure
                    &&& *final(self) == *old(self)
                    &&& *final(dma) == *old(dma)
                    &&& old(self).arena.next + old(self).grow_cost(ring_length as int)
                        > u32::MAX
                },
            },
    {
        let old_len = self.entries.len();

        if ring_length > old_len {
            let grow = ring_length - old_len;
            assert(DESC_SIZE as int * grow as int <= 16 * 0x0010_0000) by (nonlinear_arith)
                requires grow <= 0x0010_0000;
            if (self.arena.next as u64) + (DESC_SIZE as u64) * (grow as u64) > u32::MAX as u64 {
                return Err(crate::EthError::AllocationFailure);
            }

            while self.entries.len() < ring_length
                invariant
                    self.wf(),
                    self.next_entry == old(self).next_entry,
                    old_len == old(self).entries@.len(),
                    old_len <= self.entries@.len() <= ring_length,
                    self.arena.next + DESC_SIZE * (ring_length - self.entries@.len())
                        <= u32::MAX,
                    forall|j: int|
                        0 <= j < old_len ==> #[trigger] self.entries@[j]
                            == old(self).entries@[j],
                decreases ring_length - self.entries@.len(),
            {
                proof {
                    let rem = ring_length - self.entries@.len();
                    assert(DESC_SIZE * (rem - 1) == DESC_SIZE * rem - DESC_SIZE)
                        by (nonlinear_arith);
                    assert(DESC_SIZE * rem >= DESC_SIZE) by (nonlinear_arith)
                        requires rem >= 1;
                }
                match TxDescriptor::new(&mut self.arena) {
                    Some(d) => {
                        self.entries.push(TxRingEntry { desc: d, buffer: None });
                    },
                    None => {
                        // Unreachable: the room check above covers every
                        // entry still to come.
                        proof {
                            assert(false);
                        }
                        return Err(crate::EthError::AllocationFailure);
                    },
                }
            }
        }

        // Re-initialize every entry (old and new) to software-owned chained
        // mode with no buffer, and link the circular chain; the end-of-ring
        // mark lands on the last entry alone.
        let n = self.entries.len();
        let ghost mid = self.entries@;
        let ghost mid_arena = self.arena;
        let mut i: usize = 0;
        while i < n
            invariant
                n == self.entries@.len(),
                1 <= n,
                i <= n,
                self.arena == mid_arena,
                self.next_entry == old(self).next_entry,
                mid.len() == n,
                forall|j: int|
                    0 <= j < i ==> {
                        &&& (#[trigger] self.entries@[j]).buffer is None
                        &&& self.entries@[j].desc.w0 == (if j == n - 1 {
                            TXDESC_0_TCH | TXDESC_0_TER
                        } else {
                            TXDESC_0_TCH
                        })
                        &&& self.entries@[j].desc.w1 == 0
                        &&& self.entries@[j].desc.w2 == 0
                        &&& self.entries@[j].desc.w3 == (if j == n - 1 {
                            0
                        } else {
                            mid[j + 1].desc.addr
                        })
                        &&& self.entries@[j].desc.addr == mid[j].desc.addr
                    },
                forall|j: int| i <= j < n ==> #[trigger] self.entries@[j] == mid[j],
            decreases n - i,
        {
            let is_last = i + 1 == n;
            let next_addr = if is_last {
                0
            } else {
                self.entries[i + 1].desc.addr
            };
            let e = &mut self.entries[i];
            e.buffer = None;
            e.desc.w0 = if is_last {
                TXDESC_0_TCH | TXDESC_0_TER
            } else {
                TXDESC_0_TCH
            };
            e.desc.w1 = 0;
            e.desc.w2 = 0;
            e.desc.w3 = next_addr;
            i = i + 1;
        }

        proof {
            lemma_init_word_not_owned();
            assert(TXDESC_0_TCH & TXDESC_0_TER == 0) by (bit_vector);
            assert((TXDESC_0_TCH | TXDESC_0_TER) & TXDESC_0_TER == TXDESC_0_TER)
                by (bit_vector);
            assert forall|j: int| 0 <= j < self.entries@.len() implies (
                #[trigger] self.entries@[j]).wf()
                && self.entries@[j].desc.addr < self.arena.next by {
                assert(mid[j].wf());
            }
            lemma_count_zero(self.entries@, n as int);
        }

        self.next_entry = 0;
        let head = self.entries[0].desc.addr;
        dma.dmatdlar = head;
        dma.dmaomr = dma.dmaomr | DMAOMR_ST;
        Ok(())
    }

    /// Install `buffer` at the entry under the send cursor as one whole
    /// frame, hand the descriptor to the engine and advance the cursor.  A
    /// leftover buffer on the reused slot is released first.  When the
    /// engine still owns the slot the ring is full: nothing changes and the
    /// buffer comes back to the caller.
    pub fn send(&mut self, buffer: Buffer) -> (r: Result<(), Buffer>)
        requires
            old(self).wf(),
            old(self).entries@.len() > 0,
            buffer.wf(),
            buffer.len <= TXDESC_1_TBS_MASK,
        ensures
            final(self).wf(),
            final(self).entries@.len() == old(self).entries@.len(),
            final(self).arena == old(self).arena,
            ({
                let i = old(self).next_entry as int;
                let e = old(self).entries@[i];
                if spec_owned(e.desc.w0) {
                    &&& r matches Err(b) && b == buffer
                    &&& final(self).entries@ == old(self).entries@
                    &&& final(self).next_entry == old(self).next_entry
                } else {
                    &&& r is Ok
                    &&& final(self).entries@[i].desc.w0 == e.desc.w0 | (TXDESC_0_FS
                        | TXDESC_0_LS | TXDESC_0_OWN)
                    &&& spec_owned(final(self).entries@[i].desc.w0)
                    &&& final(self).entries@[i].desc.w1 == (e.desc.w1 & !TXDESC_1_TBS_MASK)
                        | buffer.len as u32
                    &&& final(self).entries@[i].desc.w2 == buffer.addr
                    &&& final(self).entries@[i].desc.w3 == e.desc.w3
                    &&& final(self).entries@[i].desc.addr == e.desc.addr
                    &&& final(self).entries@[i].buffer == Some(buffer)
                    &&& forall|j: int|
                        0 <= j < old(self).entries@.len() && j != i
                            ==> #[trigger] final(self).entries@[j] == old(self).entries@[j]
                    &&& final(self).next_entry == (if i + 1 == old(self).entries@.len() {
                        0int
                    } else {
                        i + 1
                    })
                    &&& queue_count(final(self).entries@) == queue_count(old(self).entries@)
                        + 1
                }
            }),
    {
        let idx = self.next_entry;
        let len = self.entries.len();
        if self.entries[idx].desc.is_owned() {
            return Err(buffer);
        }
        let baddr = buffer.address();
        let blen = buffer.length();
        let ghost pre = self.entries@;
        let e = &mut self.entries[idx];
        e.desc.w2 = baddr;
        e.desc.w1 = (e.desc.w1 & !TXDESC_1_TBS_MASK) | blen as u32;
        proof {
            assert((TXDESC_0_FS | TXDESC_0_LS | TXDESC_0_OWN) == 0xB000_0000u32)
                by (bit_vector);
            lemma_install_sets_own(e.desc.w0);
        }
        e.desc.w0 = e.desc.w0 | (TXDESC_0_FS | TXDESC_0_LS | TXDESC_0_OWN);
        e.buffer = Some(buffer);
        self.next_entry = if idx + 1 >= len {
            0
        } else {
            idx + 1
        };
        proof {
            lemma_count_update(pre, idx as int, self.entries@[idx as int], len as int);
            assert(self.entries@ =~= pre.update(idx as int, self.entries@[idx as int]));
        }
        Ok(())
    }

    /// Release the buffer of every entry the engine has handed back.  The
    /// descriptors themselves are untouched, so the backlog reading does
    /// not change.
    pub fn reap(&mut self)
        requires
            old(self).wf(),
        ensures
            final(self).wf(),
            final(self).entries@.len() == old(self).entries@.len(),
            final(self).next_entry == old(self).next_entry,
            final(self).arena == old(self).arena,
            forall|j: int|
                0 <= j < old(self).entries@.len() ==> {
                    &&& (#[trigger] final(self).entries@[j]).desc == old(self).entries@[j].desc
                    &&& final(self).entries@[j].buffer == (if spec_owned(
                        old(self).entries@[j].desc.w0,
                    ) {
                        old(self).entries@[j].buffer
                    } else {
                        None::<Buffer>
                    })
                },
            queue_count(final(self).entries@) == queue_count(old(self).entries@),
    {
        let n = self.entries.len();
        let mut i: usize = 0;
        while i < n
            invariant
                n == self.entries@.len(),
                n == old(self).entries@.len(),
                i <= n,
                self.wf(),
                self.next_entry == old(self).next_entry,
                self.arena == old(self).arena,
                forall|j: int|
                    0 <= j < i ==> {
                        &&& (#[trigger] self.entries@[j]).desc == old(self).entries@[j].desc
                        &&& self.entries@[j].buffer == (if spec_owned(
                            old(self).entries@[j].desc.w0,
                        ) {
                            old(self).entries@[j].buffer
                        } else {
                            None::<Buffer>
                        })
                    },
                forall|j: int| i <= j < n ==> #[trigger] self.entries@[j]
                    == old(self).entries@[j],
            decreases n - i,
        {
            if !self.entries[i].desc.is_owned() {
                let e = &mut self.entries[i];
                e.buffer = None;
            }
            i = i + 1;
        }
        proof {
            lemma_count_same(self.entries@, old(self).entries@, n as int);
        }
    }

    /// Whether the transmit process is observed running; decoded from the
    /// status register with the fixed 3-bit mapping.
    pub fn is_running(&self, dma: &DmaRegisters) -> (r: bool)
        ensures
            r == (spec_running_state(tx_status_bits(*dma)) == RunningState::Running),
    {
        let state = decode_running_state((dma.dmasr >> DMASR_TPS_SHIFT) & 7);
        state.is_running()
    }

    /// Write the transmit poll demand register, prompting a stalled engine
    /// to re-check the descriptor it is pointed at.
    pub fn demand_poll(&self, dma: &mut DmaRegisters)
        ensures
            *final(dma) == (DmaRegisters { dmatpdr: 1, ..*old(dma) }),
    {
        dma.dmatpdr = 1;
    }

    /// Number of entries currently owned by the engine: the in-flight
    /// backlog, for caller-side flow control.
    pub fn queue_len(&self) -> (r: usize)
        ensures
            r == queue_count(self.entries@),
    {
        let n = self.entries.len();
        let mut count: usize = 0;
        let mut i: usize = 0;
        while i < n
            invariant
                n == self.entries@.len(),
                i <= n,
                count <= i,
                count == count_owned_to(self.entries@, i as int),
            decreases n - i,
        {
            if self.entries[i].desc.is_owned() {
                count = count + 1;
            }
            i = i + 1;
        }
        count
    }
}

} // verus!
