//! Frame buffers and the aligned arena they are placed in.
//!
//! The hardware truncates the low address bits of every descriptor and
//! buffer, so both must sit at 8-byte aligned addresses that stay stable for
//! the ring's lifetime.  An [`Arena`] models that region of the heap: it
//! hands out aligned, strictly increasing addresses and never reuses one.
//! A [`Buffer`] pairs such an address with its payload bytes and a logical
//! length no greater than its capacity.

use vstd::prelude::*;

verus! {

/// Size in bytes of one hardware descriptor record (four 32-bit words).
pub const DESC_SIZE: u32 = 16;

/// Largest single allocation an [`Arena`] accepts; descriptor records and
/// frame buffers are both far below it.
pub const MAX_ALLOC: u32 = 4096;

/// `size` rounded up to a multiple of 8, with a zero-sized allocation still
/// occupying one alignment unit so that every address handed out is fresh.
pub open spec fn padded_size(size: u32) -> int {
    if size == 0 {
        8
    } else {
        ((size + 7) / 8) * 8
    }
}

/// An aligned bump allocator over a fixed base address: the model of the
/// heap region descriptors and buffers are carved from.
pub struct Arena {
    /// Next free address; always 8-byte aligned.
    pub next: u32,
}

impl Arena {
    /// Every address handed out so far lies below `next`, and the next one
    /// will be aligned.
    pub open spec fn wf(self) -> bool {
        self.next % 8 == 0
    }

    /// An arena starting at `base`.
    pub fn new(base: u32) -> (r: Arena)
        requires
            base % 8 == 0,
        ensures
            r.wf(),
            r.next == base,
    {
        Arena { next: base }
    }

    /// Reserve `size` bytes; returns the aligned base address of the
    /// reservation, or `None` when the region is exhausted.  Addresses are
    /// strictly increasing, so every successful allocation is fresh.
    pub fn reserve(&mut self, size: u32) -> (r: Option<u32>)
        requires
            old(self).wf(),
            size <= MAX_ALLOC,
        ensures
            final(self).wf(),
            match r {
                Some(a) => {
                    &&& a == old(self).next
                    &&& a % 8 == 0
                    &&& final(self).next == a + padded_size(size)
                    &&& a < final(self).next <= u32::MAX
                },
                None => {
                    &&& *final(self) == *old(self)
                    &&& old(self).next + padded_size(size) > u32::MAX
                },
            },
    {
        let padded: u32 = if size == 0 {
            8
        } else {
            ((size + 7) / 8) * 8
        };
        assert(padded == padded_size(size));
        if self.next <= u32::MAX - padded {
            let a = self.next;
            self.next = a + padded;
            assert(final(self).next % 8 == 0) by {
                assert(a % 8 == 0);
                assert(padded % 8 == 0) by (nonlinear_arith)
                    requires padded == padded_size(size) && size <= MAX_ALLOC;
            }
            Some(a)
        } else {
            None
        }
    }
}

/// An aligned memory block of fixed capacity holding one frame's payload,
/// with a settable logical length.
pub struct Buffer {
    /// Base address of the block; 8-byte aligned.
    pub addr: u32,
    /// The payload bytes; the capacity is `data.len()` and never changes.
    pub data: Vec<u8>,
    /// Logical length of the frame held; at most the capacity.
    pub len: usize,
}

impl Buffer {
    /// Aligned address, logical length within capacity.
    pub open spec fn wf(self) -> bool {
        &&& self.addr % 8 == 0
        &&& self.len <= self.data.len()
    }

    /// Allocate a zero-filled buffer of `capacity` bytes from `arena`, with
    /// logical length 0; `None` when the arena is exhausted.
    pub fn new(arena: &mut Arena, capacity: usize) -> (r: Option<Buffer>)
        requires
            old(arena).wf(),
            capacity <= MAX_ALLOC,
        ensures
            final(arena).wf(),
            match r {
                Some(b) => {
                    &&& b.wf()
                    &&& b.addr == old(arena).next
                    &&& b.addr % 8 == 0
                    &&& b.data.len() == capacity
                    &&& b.data@ == Seq::<u8>::new(capacity as nat, |i: int| 0u8)
                    &&& b.len == 0
                    &&& final(arena).next == b.addr + padded_size(capacity as u32)
                    &&& b.addr < final(arena).next
                },
                None => {
                    &&& *final(arena) == *old(arena)
                    &&& old(arena).next + padded_size(capacity as u32) > u32::MAX
                },
            },
    {
        match arena.reserve(capacity as u32) {
            Some(a) => {
                let mut data: Vec<u8> = Vec::new();
                let mut i: usize = 0;
                while i < capacity
                    invariant
                        i <= capacity,
                        data@ =~= Seq::<u8>::new(i as nat, |j: int| 0u8),
                    decreases capacity - i,
                {
                    data.push(0);
                    i = i + 1;
                }
                assert(data@ =~= Seq::<u8>::new(capacity as nat, |i: int| 0u8));
                Some(Buffer { addr: a, data, len: 0 })
            },
            None => None,
        }
    }

    /// Base address of the block, as programmed into a descriptor.
    pub fn address(&self) -> (r: u32)
        ensures
            r == self.addr,
    {
        self.addr
    }

    /// Fixed capacity of the block.
    pub fn capacity(&self) -> (r: usize)
        ensures
            r == self.data.len(),
    {
        self.data.len()
    }

    /// Current logical length.
    pub fn length(&self) -> (r: usize)
        ensures
            r == self.len,
    {
        self.len
    }

    /// Set the logical length; callers keep it within capacity.
    pub fn set_len(&mut self, len: usize)
        requires
            len <= old(self).data.len(),
        ensures
            final(self).len == len,
            final(self).addr == old(self).addr,
            final(self).data == old(self).data,
    {
        self.len = len;
    }

    /// Read one payload byte.
    pub fn get(&self, i: usize) -> (r: u8)
        requires
            i < self.data.len(),
        ensures
            r == self.data@[i as int],
    {
        self.data[i]
    }

    /// Write one payload byte.
    pub fn set(&mut self, i: usize, b: u8)
        requires
            i < old(self).data.len(),
        ensures
            final(self).data@ == old(self).data@.update(i as int, b),
            final(self).addr == old(self).addr,
            final(self).len == old(self).len,
            final(self).data.len() == old(self).data.len(),
    {
        self.data[i] = b;
    }
}

} // verus!
