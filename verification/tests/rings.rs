use stm32_eth::buffer::{Arena, Buffer};
use stm32_eth::regs::{DmaRegisters, DMAOMR_SR, DMAOMR_ST};
use stm32_eth::rx::{
    decode_running_state, RunningState, RxDescriptor, RxRing, RXDESC_0_ES, RXDESC_0_FS,
    RXDESC_0_LS, RXDESC_0_OWN, RXDESC_1_RCH, RXDESC_1_RER,
};
use stm32_eth::tx::{TxRing, TXDESC_0_FS, TXDESC_0_LS, TXDESC_0_OWN, TXDESC_0_TER};

fn owned(w0: u32) -> bool {
    w0 & RXDESC_0_OWN == RXDESC_0_OWN
}

#[test]
fn rx_start_links_chain() {
    let mut dma = DmaRegisters::new();
    let mut ring = RxRing::new(64);
    assert!(ring.start(4, &mut dma).is_ok());

    assert_eq!(ring.entries.len(), 4);
    // Head pointer registered with hardware equals the address of entry 0.
    assert_eq!(dma.dmardlar, ring.entries[0].desc.addr);
    // Receive engine started, poll demanded.
    assert_eq!(dma.dmaomr & DMAOMR_SR, DMAOMR_SR);
    assert_eq!(dma.dmarpdr, 1);

    // Walking next-pointers N times returns to entry 0, through exactly one
    // end-of-ring mark (a null successor wraps to the registered head).
    let mut addr = dma.dmardlar;
    let mut end_marks = 0;
    for _ in 0..4 {
        let entry = ring
            .entries
            .iter()
            .find(|e| e.desc.addr == addr)
            .expect("chain address names a ring entry");
        if entry.desc.w1 & RXDESC_1_RER == RXDESC_1_RER {
            end_marks += 1;
            assert_eq!(entry.desc.w3, 0);
            addr = dma.dmardlar;
        } else {
            addr = entry.desc.w3;
        }
    }
    assert_eq!(addr, ring.entries[0].desc.addr);
    assert_eq!(end_marks, 1);

    // A freshly started ring is entirely hardware-owned and chained, each
    // descriptor programmed with its buffer's address and size.
    for e in ring.entries.iter() {
        assert!(owned(e.desc.w0));
        assert_eq!(e.desc.w1 & RXDESC_1_RCH, RXDESC_1_RCH);
        assert_eq!(e.desc.w1 & 0x0FFF, 64);
        assert_eq!(e.desc.w2, e.buffer.addr);
        assert_eq!(e.buffer.data.len(), 64);
    }
}

#[test]
fn rx_ownership_round_trip() {
    let mut dma = DmaRegisters::new();
    let mut ring = RxRing::new(128);
    assert!(ring.start(4, &mut dma).is_ok());

    // Synthesize a completed single-segment frame of length 20 at the
    // cursor, as the engine would: clear OWN, set first+last, report the
    // length, fill the payload.
    let old_addr = ring.entries[0].buffer.addr;
    ring.entries[0].desc.w0 = RXDESC_0_FS | RXDESC_0_LS | (20 << 16);
    ring.entries[0].buffer.data[0] = 0xAB;
    ring.entries[0].buffer.data[19] = 0xCD;

    let got = ring.recv_next(&mut dma).expect("a completed frame is returned");
    assert_eq!(got.length(), 20);
    assert_eq!(got.addr, old_addr);
    assert_eq!(got.data[0], 0xAB);
    assert_eq!(got.data[19], 0xCD);

    // The descriptor went back to the engine with a fresh buffer whose
    // address differs from the one handed out.
    assert!(owned(ring.entries[0].desc.w0));
    assert_ne!(ring.entries[0].buffer.addr, got.addr);
    assert_eq!(ring.entries[0].desc.w2, ring.entries[0].buffer.addr);
    assert_eq!(ring.entries[0].buffer.data.len(), 128);
    // Cursor advanced.
    assert_eq!(ring.next_entry, 1);
}

#[test]
fn rx_error_frame_dropped() {
    let mut dma = DmaRegisters::new();
    let mut ring = RxRing::new(64);
    assert!(ring.start(2, &mut dma).is_ok());

    ring.entries[0].desc.w0 = RXDESC_0_ES | RXDESC_0_FS | RXDESC_0_LS | (9 << 16);
    let w2_before = ring.entries[0].desc.w2;
    let buf_before = ring.entries[0].buffer.addr;

    assert!(ring.recv_next(&mut dma).is_none());
    // Descriptor handed straight back, buffer pointer untouched.
    assert!(owned(ring.entries[0].desc.w0));
    assert_eq!(ring.entries[0].desc.w2, w2_before);
    assert_eq!(ring.entries[0].buffer.addr, buf_before);
    assert_eq!(ring.next_entry, 0);
}

#[test]
fn rx_fragment_dropped_and_cursor_advances() {
    let mut dma = DmaRegisters::new();
    let mut ring = RxRing::new(64);
    assert!(ring.start(2, &mut dma).is_ok());

    // First piece of a multi-descriptor frame: first-segment without
    // last-segment.  Unsupported, dropped, slot re-offered to the engine.
    ring.entries[0].desc.w0 = RXDESC_0_FS;
    assert!(ring.recv_next(&mut dma).is_none());
    assert!(owned(ring.entries[0].desc.w0));
    assert_eq!(ring.next_entry, 1);
}

#[test]
fn rx_nothing_ready() {
    let mut dma = DmaRegisters::new();
    let mut ring = RxRing::new(64);
    assert!(ring.start(3, &mut dma).is_ok());

    // All entries engine-owned: nothing ready, cursor unchanged.
    assert!(ring.recv_next(&mut dma).is_none());
    assert_eq!(ring.next_entry, 0);
}

#[test]
fn rx_frame_length_clamped_to_capacity() {
    let mut dma = DmaRegisters::new();
    let mut ring = RxRing::new(32);
    assert!(ring.start(1, &mut dma).is_ok());

    ring.entries[0].desc.w0 = RXDESC_0_FS | RXDESC_0_LS | (100 << 16);
    let got = ring.recv_next(&mut dma).expect("frame returned");
    assert_eq!(got.length(), 32);
    // The cursor wraps at the ring end.
    assert_eq!(ring.next_entry, 0);
}

#[test]
fn rx_regrow_preserves_entries() {
    let mut dma = DmaRegisters::new();
    let mut ring = RxRing::new(64);
    assert!(ring.start(2, &mut dma).is_ok());

    ring.entries[0].buffer.data[3] = 0x11;
    ring.entries[1].buffer.data[7] = 0x22;
    let addr0 = ring.entries[0].buffer.addr;
    let addr1 = ring.entries[1].buffer.addr;
    let own0 = ring.entries[0].desc.w0;

    assert!(ring.start(5, &mut dma).is_ok());
    assert_eq!(ring.entries.len(), 5);

    // The first two entries keep their buffers and contents.
    assert_eq!(ring.entries[0].buffer.addr, addr0);
    assert_eq!(ring.entries[1].buffer.addr, addr1);
    assert_eq!(ring.entries[0].buffer.data[3], 0x11);
    assert_eq!(ring.entries[1].buffer.data[7], 0x22);
    assert_eq!(ring.entries[0].desc.w0, own0);

    // Existing control words keep their chained-mode flag and size field.
    assert_eq!(ring.entries[0].desc.w1 & RXDESC_1_RCH, RXDESC_1_RCH);
    assert_eq!(ring.entries[0].desc.w1 & 0x0FFF, 64);
    assert_eq!(ring.entries[1].desc.w1 & 0x0FFF, 64);

    // A valid 5-entry circular chain with exactly one end-of-ring mark.
    for i in 0..4 {
        assert_eq!(ring.entries[i].desc.w3, ring.entries[i + 1].desc.addr);
        assert_eq!(ring.entries[i].desc.w1 & RXDESC_1_RER, 0);
    }
    assert_eq!(ring.entries[4].desc.w3, 0);
    assert_eq!(ring.entries[4].desc.w1 & RXDESC_1_RER, RXDESC_1_RER);
    assert_eq!(dma.dmardlar, ring.entries[0].desc.addr);
}

#[test]
fn rx_cycles_around_ring() {
    let mut dma = DmaRegisters::new();
    let mut ring = RxRing::new(64);
    assert!(ring.start(3, &mut dma).is_ok());

    // Seven receptions walk the cursor around the ring twice and a bit;
    // every returned buffer is distinct from the one left in the slot.
    for k in 0..7u32 {
        let at = ring.next_entry;
        ring.entries[at].desc.w0 = RXDESC_0_FS | RXDESC_0_LS | ((10 + k) << 16);
        let got = ring.recv_next(&mut dma).expect("frame returned");
        assert_eq!(got.length(), (10 + k) as usize);
        assert_ne!(got.addr, ring.entries[at].buffer.addr);
        assert!(owned(ring.entries[at].desc.w0));
        assert_eq!(ring.next_entry, (at + 1) % 3);
    }
}

#[test]
fn tx_slot_reuse_replaces_reclaimed_buffer() {
    let mut dma = DmaRegisters::new();
    let mut tx = TxRing::new();
    assert!(tx.start(2, &mut dma).is_ok());
    let mut arena = Arena::new(0x4000_0000);

    // Fill both slots, let the engine drain them, and go around again:
    // the leftover buffer of a reused slot is replaced, not leaked into
    // the descriptor.
    for lap in 0..2 {
        for slot in 0..2 {
            let b = Buffer::new(&mut arena, 32).unwrap();
            let baddr = b.addr;
            assert!(tx.send(b).is_ok(), "lap {lap} slot {slot}");
            assert_eq!(tx.entries[slot].desc.w2, baddr);
            assert_eq!(tx.entries[slot].buffer.as_ref().unwrap().addr, baddr);
        }
        assert_eq!(tx.queue_len(), 2);
        for slot in 0..2 {
            tx.entries[slot].desc.w0 &= !TXDESC_0_OWN;
        }
        assert_eq!(tx.queue_len(), 0);
    }
    tx.reap();
    assert!(tx.entries[0].buffer.is_none());
    assert!(tx.entries[1].buffer.is_none());
}

#[test]
fn rx_shrink_is_not_supported() {
    let mut dma = DmaRegisters::new();
    let mut ring = RxRing::new(64);
    assert!(ring.start(4, &mut dma).is_ok());
    assert!(ring.start(2, &mut dma).is_ok());
    // The entry count never decreases.
    assert_eq!(ring.entries.len(), 4);
}

#[test]
fn rx_start_allocation_failure() {
    let mut dma = DmaRegisters::new();
    let mut ring = RxRing::new(64);
    // Exhaust the arena: no room for four entries.
    ring.arena.next = u32::MAX - 7;
    let r = ring.start(4, &mut dma);
    assert_eq!(r, Err(stm32_eth::EthError::AllocationFailure));
    // Nothing was touched.
    assert_eq!(ring.entries.len(), 0);
    assert_eq!(dma.dmardlar, 0);
}

#[test]
fn alignment_of_all_addresses() {
    let mut dma = DmaRegisters::new();
    let mut ring = RxRing::new(100);
    assert!(ring.start(5, &mut dma).is_ok());
    for e in ring.entries.iter() {
        assert_eq!(e.desc.addr & 0b111, 0);
        assert_eq!(e.buffer.addr & 0b111, 0);
    }

    let mut tx = TxRing::new();
    assert!(tx.start(4, &mut dma).is_ok());
    for e in tx.entries.iter() {
        assert_eq!(e.desc.addr & 0b111, 0);
    }

    let mut arena = Arena::new(0x3000_0000);
    let b = Buffer::new(&mut arena, 33).unwrap();
    assert_eq!(b.addr & 0b111, 0);
    let d = RxDescriptor::new(&mut arena).unwrap();
    assert_eq!(d.addr & 0b111, 0);
}

#[test]
fn running_state_decode_table() {
    // The fixed mapping of the 3-bit process status code.
    assert_eq!(decode_running_state(0b000), RunningState::Stopped);
    assert_eq!(decode_running_state(0b001), RunningState::Running);
    assert_eq!(decode_running_state(0b010), RunningState::Unknown);
    assert_eq!(decode_running_state(0b011), RunningState::Running);
    assert_eq!(decode_running_state(0b100), RunningState::Stopped);
    assert_eq!(decode_running_state(0b101), RunningState::Running);
    assert_eq!(decode_running_state(0b110), RunningState::Unknown);
    assert_eq!(decode_running_state(0b111), RunningState::Running);

    assert!(decode_running_state(0b011).is_running());
    assert!(!decode_running_state(0b000).is_running());
    assert!(!decode_running_state(0b010).is_running());
}

#[test]
fn rx_running_state_reads_status_field() {
    let mut dma = DmaRegisters::new();
    let ring = RxRing::new(64);
    dma.dmasr = 0b001 << 17;
    assert_eq!(ring.running_state(&dma), RunningState::Running);
    dma.dmasr = 0b100 << 17;
    assert_eq!(ring.running_state(&dma), RunningState::Stopped);
    dma.dmasr = 0b110 << 17;
    assert_eq!(ring.running_state(&dma), RunningState::Unknown);
}

#[test]
fn tx_backlog_rises_and_reaps() {
    let mut dma = DmaRegisters::new();
    let mut tx = TxRing::new();
    assert!(tx.start(4, &mut dma).is_ok());
    assert_eq!(dma.dmatdlar, tx.entries[0].desc.addr);
    assert_eq!(dma.dmaomr & DMAOMR_ST, DMAOMR_ST);
    assert_eq!(tx.queue_len(), 0);

    let mut arena = Arena::new(0x4000_0000);
    let mut b = Buffer::new(&mut arena, 64).unwrap();
    b.set(0, 0x42);
    b.set_len(10);
    let baddr = b.addr;
    assert!(tx.send(b).is_ok());

    // One frame in flight.
    assert_eq!(tx.queue_len(), 1);
    let w0 = tx.entries[0].desc.w0;
    assert_eq!(w0 & TXDESC_0_OWN, TXDESC_0_OWN);
    assert_eq!(w0 & TXDESC_0_FS, TXDESC_0_FS);
    assert_eq!(w0 & TXDESC_0_LS, TXDESC_0_LS);
    assert_eq!(tx.entries[0].desc.w2, baddr);
    assert_eq!(tx.entries[0].desc.w1 & 0x1FFF, 10);
    assert_eq!(tx.next_entry, 1);

    // The engine clears OWN once the frame has left; a reap then releases
    // the buffer and the backlog stays at zero.
    tx.entries[0].desc.w0 &= !TXDESC_0_OWN;
    assert_eq!(tx.queue_len(), 0);
    tx.reap();
    assert!(tx.entries[0].buffer.is_none());
    assert_eq!(tx.queue_len(), 0);
}

#[test]
fn tx_ring_full_hands_buffer_back() {
    let mut dma = DmaRegisters::new();
    let mut tx = TxRing::new();
    assert!(tx.start(1, &mut dma).is_ok());

    let mut arena = Arena::new(0x4000_0000);
    let b1 = Buffer::new(&mut arena, 16).unwrap();
    let b2 = Buffer::new(&mut arena, 16).unwrap();
    let b2_addr = b2.addr;
    assert!(tx.send(b1).is_ok());
    // The single slot is still engine-owned: the ring is full.
    let back = tx.send(b2).expect_err("full ring hands the buffer back");
    assert_eq!(back.addr, b2_addr);
    assert_eq!(tx.queue_len(), 1);
}

#[test]
fn tx_chain_links_and_single_end_mark() {
    let mut dma = DmaRegisters::new();
    let mut tx = TxRing::new();
    assert!(tx.start(3, &mut dma).is_ok());
    for i in 0..2 {
        assert_eq!(tx.entries[i].desc.w3, tx.entries[i + 1].desc.addr);
        assert_eq!(tx.entries[i].desc.w0 & TXDESC_0_TER, 0);
    }
    assert_eq!(tx.entries[2].desc.w3, 0);
    assert_eq!(tx.entries[2].desc.w0 & TXDESC_0_TER, TXDESC_0_TER);
}

#[test]
fn arena_and_buffer_basics() {
    let mut arena = Arena::new(0x1000_0000);
    let a1 = arena.reserve(16).unwrap();
    let a2 = arena.reserve(1).unwrap();
    assert_eq!(a1, 0x1000_0000);
    assert_eq!(a2, 0x1000_0010);
    assert_eq!(arena.next, 0x1000_0018);

    // An exhausted arena refuses, untouched.
    let mut tight = Arena::new(u32::MAX - 7);
    assert!(tight.reserve(16).is_none());
    assert_eq!(tight.next, u32::MAX - 7);
    assert!(Buffer::new(&mut tight, 64).is_none());

    let mut b = Buffer::new(&mut arena, 8).unwrap();
    assert_eq!(b.capacity(), 8);
    assert_eq!(b.length(), 0);
    assert_eq!(b.address(), b.addr);
    b.set(3, 0x5A);
    assert_eq!(b.get(3), 0x5A);
    b.set_len(4);
    assert_eq!(b.length(), 4);
}

#[test]
fn rx_entry_set_next_buffer() {
    let mut dma = DmaRegisters::new();
    let mut ring = RxRing::new(64);
    assert!(ring.start(2, &mut dma).is_ok());

    let mut other = RxRing::new(64);
    assert!(other.start(1, &mut dma).is_ok());
    let target_addr = other.entries[0].desc.addr;

    // Chaining to an entry names its descriptor address and clears any
    // stale end-of-ring mark; closing the ring nulls the successor and
    // sets the mark.
    let mut e = ring.entries.pop().unwrap();
    assert_eq!(e.desc.w1 & RXDESC_1_RER, RXDESC_1_RER);
    e.set_next_buffer(Some(&other.entries[0]));
    assert_eq!(e.desc.w3, target_addr);
    assert_eq!(e.desc.w1 & RXDESC_1_RER, 0);
    e.set_next_buffer(None);
    assert_eq!(e.desc.w3, 0);
    assert_eq!(e.desc.w1 & RXDESC_1_RER, RXDESC_1_RER);
}

#[test]
fn rx_descriptor_bit_protocol() {
    let mut arena = Arena::new(0x1000_0000);
    let mut d = RxDescriptor::new(&mut arena).unwrap();
    assert_eq!(d.w1, RXDESC_1_RCH);
    assert!(!d.is_owned());
    assert!(!d.has_error());
    assert!(!d.is_first());
    assert!(!d.is_last());

    d.set_buffer1(0x2000_0040, 256);
    assert_eq!(d.w2, 0x2000_0040);
    assert_eq!(d.w1 & 0x0FFF, 256);
    d.set_buffer2(0x2000_0080);
    assert_eq!(d.w3, 0x2000_0080);
    d.set_end_of_ring();
    assert_eq!(d.w1 & RXDESC_1_RER, RXDESC_1_RER);
    d.clear_end_of_ring();
    assert_eq!(d.w1 & RXDESC_1_RER, 0);

    d.w0 = RXDESC_0_FS | RXDESC_0_LS | RXDESC_0_ES | (77 << 16);
    assert!(d.is_first());
    assert!(d.is_last());
    assert!(d.has_error());
    assert_eq!(d.frame_length(), 77);
    d.set_owned();
    assert!(d.is_owned());
}
