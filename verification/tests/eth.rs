use stm32_eth::buffer::{Arena, Buffer};
use stm32_eth::phy::{PHY_BCR_AN, PHY_BCR_AN_RESTART, PHY_BCR_RESET, PHY_BSR_AN_DONE,
    PHY_BSR_LINK_UP};
use stm32_eth::regs::{
    DmaRegisters, MacRegisters, Nvic, DMABMR_AAB, DMABMR_FB, DMABMR_PBL_32, DMABMR_RDP_32,
    DMABMR_SR, DMABMR_USP, DMAIER_NISE, DMAIER_RIE, DMAIER_TIE, DMAOMR_DFRF, DMAOMR_DTCEFD,
    DMAOMR_FEF, DMAOMR_OSF, DMAOMR_RSF, DMAOMR_SR, DMAOMR_ST, DMAOMR_TSF, DMASR_NIS, DMASR_RS,
    DMASR_TS, MACCR_APCS, MACCR_CSTF, MACCR_DM, MACCR_FES, MACCR_RE, MACCR_TE, MACFCR_PT_MASK,
    MACFFR_PM, MACFFR_RA,
};
use stm32_eth::rx::{RXDESC_0_FS, RXDESC_0_LS, RXDESC_0_OWN};
use stm32_eth::tx::TXDESC_0_OWN;
use stm32_eth::{eth_interrupt_handler, Eth, EthError, MTU, PHY_ADDR, RESET_POLL_LIMIT,
    TX_RING_LEN};

#[test]
fn eth_new_programs_registers() {
    let eth = Eth::new(MacRegisters::new(), DmaRegisters::new(), 4).expect("driver starts");

    // MAC configuration: stripping, speed, duplex, pad/CRC strip, receive
    // and transmit enable.
    for bit in [MACCR_CSTF, MACCR_FES, MACCR_DM, MACCR_APCS, MACCR_RE, MACCR_TE] {
        assert_eq!(eth.eth_mac.maccr & bit, bit);
    }
    // Promiscuous / receive-all filtering and the pause time.
    assert_eq!(eth.eth_mac.macffr & (MACFFR_RA | MACFFR_PM), MACFFR_RA | MACFFR_PM);
    assert_eq!(eth.eth_mac.macfcr & MACFCR_PT_MASK, 0x100 << 16);
    // The transceiver was reset and autonegotiation restarted.
    let bcr_bits = PHY_BCR_RESET | PHY_BCR_AN | PHY_BCR_AN_RESTART;
    assert_eq!(eth.eth_mac.phy_bcr & bcr_bits, bcr_bits);

    // DMA operation and bus mode; the reset flag has cleared.
    for bit in [
        DMAOMR_DTCEFD,
        DMAOMR_RSF,
        DMAOMR_DFRF,
        DMAOMR_TSF,
        DMAOMR_FEF,
        DMAOMR_OSF,
        DMAOMR_SR,
        DMAOMR_ST,
    ] {
        assert_eq!(eth.eth_dma.dmaomr & bit, bit);
    }
    for bit in [DMABMR_AAB, DMABMR_FB, DMABMR_RDP_32, DMABMR_PBL_32, DMABMR_USP] {
        assert_eq!(eth.eth_dma.dmabmr & bit, bit);
    }
    assert_eq!(eth.eth_dma.dmabmr & DMABMR_SR, 0);
    // Rx:Tx priority ratio 2:1.
    assert_eq!((eth.eth_dma.dmabmr >> 14) & 0b11, 0b01);

    // Both rings are started, registered, and MTU-sized.
    assert_eq!(eth.rx.buffer_size, MTU);
    assert_eq!(eth.rx.entries.len(), 4);
    assert_eq!(eth.tx.entries.len(), TX_RING_LEN);
    assert_eq!(eth.eth_dma.dmardlar, eth.rx.entries[0].desc.addr);
    assert_eq!(eth.eth_dma.dmatdlar, eth.tx.entries[0].desc.addr);
    for e in eth.rx.entries.iter() {
        assert_eq!(e.desc.w0 & RXDESC_0_OWN, RXDESC_0_OWN);
        assert_eq!(e.buffer.data.len(), MTU);
        assert_eq!((e.desc.w1 & 0x0FFF) as usize, MTU);
    }
}

#[test]
fn eth_new_reports_hung_reset() {
    let mut dma = DmaRegisters::new();
    // The model engine would need more polls than the barrier allows.
    dma.reset_polls = RESET_POLL_LIMIT;
    let r = Eth::new(MacRegisters::new(), dma, 4);
    assert!(matches!(r, Err(EthError::HardwareInitHang)));

    let mut dma = DmaRegisters::new();
    dma.reset_polls = RESET_POLL_LIMIT - 1;
    assert!(Eth::new(MacRegisters::new(), dma, 4).is_ok());
}

#[test]
fn eth_rx_len_zero_defers_start() {
    let mut eth = Eth::new(MacRegisters::new(), DmaRegisters::new(), 0).expect("driver starts");
    assert_eq!(eth.rx.entries.len(), 0);
    // Deferring reception leaves the receive registers untouched.
    assert_eq!(eth.eth_dma.dmardlar, 0);
    assert_eq!(eth.eth_dma.dmarpdr, 0);

    assert!(eth.start_rx(3).is_ok());
    assert_eq!(eth.rx.entries.len(), 3);
    assert_eq!(eth.eth_dma.dmardlar, eth.rx.entries[0].desc.addr);
}

#[test]
fn eth_recv_next_returns_frame() {
    let mut eth = Eth::new(MacRegisters::new(), DmaRegisters::new(), 2).expect("driver starts");
    assert!(eth.recv_next().is_none());

    eth.rx.entries[0].desc.w0 = RXDESC_0_FS | RXDESC_0_LS | (5 << 16);
    eth.rx.entries[0].buffer.data[4] = 0x99;
    let got = eth.recv_next().expect("frame returned");
    assert_eq!(got.length(), 5);
    assert_eq!(got.data[4], 0x99);
}

#[test]
fn eth_send_queues_and_polls() {
    let mut eth = Eth::new(MacRegisters::new(), DmaRegisters::new(), 2).expect("driver starts");
    assert_eq!(eth.queue_len(), 0);

    let mut arena = Arena::new(0x5000_0000);
    let mut b = Buffer::new(&mut arena, 64).unwrap();
    b.set_len(48);
    assert!(eth.send(b).is_ok());
    assert_eq!(eth.queue_len(), 1);
    // The descriptor carries the frame's address and length.
    assert_eq!(eth.tx.entries[0].desc.w1 & 0x1FFF, 48);
    // The transmit process reads as stopped (status field zero), so the
    // hand-off demanded a poll.
    assert_eq!(eth.eth_dma.dmatpdr, 1);

    // The engine hands the slot back.
    eth.tx.entries[0].desc.w0 &= !TXDESC_0_OWN;
    assert_eq!(eth.queue_len(), 0);
    eth.tx.reap();
    assert!(eth.tx.entries[0].buffer.is_none());
}

#[test]
fn eth_rx_is_running_decodes_status() {
    let mut eth = Eth::new(MacRegisters::new(), DmaRegisters::new(), 1).expect("driver starts");
    eth.eth_dma.dmasr = 0b011 << 17;
    assert!(eth.rx_is_running());
    eth.eth_dma.dmasr = 0b100 << 17;
    assert!(!eth.rx_is_running());
}

#[test]
fn eth_interrupt_enable_and_acknowledge() {
    let mut eth = Eth::new(MacRegisters::new(), DmaRegisters::new(), 1).expect("driver starts");
    let mut nvic = Nvic::new();
    assert!(!nvic.eth_enabled);
    eth.enable_interrupt(&mut nvic);
    assert!(nvic.eth_enabled);
    let ier = DMAIER_NISE | DMAIER_RIE | DMAIER_TIE;
    assert_eq!(eth.eth_dma.dmaier & ier, ier);

    // Pending bits are cleared by the handler; unrelated bits stay.
    eth.eth_dma.dmasr = DMASR_NIS | DMASR_RS | DMASR_TS | (0b011 << 17);
    eth.interrupt_handler();
    assert_eq!(eth.eth_dma.dmasr & (DMASR_NIS | DMASR_RS | DMASR_TS), 0);
    assert_eq!(eth.eth_dma.dmasr, 0b011 << 17);

    let mut dma = DmaRegisters::new();
    dma.dmasr = DMASR_NIS | DMASR_RS;
    eth_interrupt_handler(&mut dma);
    assert_eq!(dma.dmasr, 0);
}

#[test]
fn eth_phy_status() {
    let mut eth = Eth::new(MacRegisters::new(), DmaRegisters::new(), 1).expect("driver starts");
    assert_eq!(eth.get_phy().addr, PHY_ADDR);

    eth.eth_mac.phy_bsr = PHY_BSR_LINK_UP | PHY_BSR_AN_DONE;
    let status = eth.status();
    assert!(status.link_detected());
    assert!(status.autoneg_done());

    eth.eth_mac.phy_bsr = 0;
    let status = eth.status();
    assert!(!status.link_detected());
    assert!(!status.autoneg_done());
}
