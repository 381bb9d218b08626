//! Driver core for a microcontroller's integrated Ethernet MAC+DMA
//! controller: the receive and transmit descriptor rings and the
//! buffer-ownership hand-off between software and the autonomous DMA engine.
//!
//! The engine walks a circular chain of descriptors on its own; software and
//! engine synchronize through a single ownership bit per descriptor.  The
//! hardware register blocks and the descriptor records are held as plain
//! words (see [`regs`]), and descriptor and buffer addresses come from an
//! arena that models the aligned heap the records would occupy; the raw
//! volatile access mechanism itself is a primitive outside this core.
//!
//! No internal mutual exclusion is provided between calls made from normal
//! execution and calls made from interrupt context; serializing them is the
//! embedding application's responsibility.

use vstd::prelude::*;

pub mod buffer;
pub mod phy;
pub mod regs;
pub mod rx;
pub mod tx;

use crate::buffer::Buffer;
use crate::phy::{Phy, PhyStatus};
use crate::regs::{
    DmaRegisters, MacRegisters, Nvic, DMABMR_AAB, DMABMR_FB, DMABMR_PBL_32, DMABMR_PBL_MASK,
    DMABMR_RDP_32, DMABMR_RDP_MASK, DMABMR_RTPR_2_1, DMABMR_RTPR_MASK, DMABMR_SR, DMABMR_USP,
    DMAIER_NISE, DMAIER_RIE, DMAIER_TIE, DMAOMR_DFRF, DMAOMR_DTCEFD, DMAOMR_FEF, DMAOMR_OSF,
    DMAOMR_RSF, DMAOMR_ST, DMAOMR_TSF, DMASR_NIS, DMASR_RS, DMASR_TS, MACCR_APCS, MACCR_CSTF,
    MACCR_DM, MACCR_FES, MACCR_RD, MACCR_RE, MACCR_TE, MACFCR_PT_MASK, MACFCR_PT_SHIFT,
    MACFFR_PM, MACFFR_RA, MACMIIAR_CR_MASK, MACMIIAR_CR_SHIFT,
};
use crate::phy::{PHY_BCR_AN, PHY_BCR_AN_RESTART, PHY_BCR_RESET};
use crate::rx::{
    chain_linked, rx_poll_effect, rx_status_bits, spec_frame_length, spec_owned,
    spec_running_state, RunningState, RxRing, MAX_RING_LEN, RXDESC_0_ES, RXDESC_0_FS,
    RXDESC_0_LS, RXDESC_0_OWN,
};
use crate::tx::{
    queue_count, tx_chain_linked, tx_status_bits, TxRing, TXDESC_0_FS, TXDESC_0_LS,
    TXDESC_0_OWN, TXDESC_1_TBS_MASK,
};

verus! {

/// The hardware drops the low bits of descriptor and buffer addresses:
/// both must be aligned to this many bytes.
pub const ALIGNMENT: usize = 8;

/// Management-bus device address of the board's transceiver.
pub const PHY_ADDR: u8 = 0;

/// Frame payload size every receive buffer is sized to hold.
pub const MTU: usize = 1518;

/// One receive ring entry costs a descriptor record plus an MTU-sized
/// buffer, both padded to alignment.
pub const DESC_SIZE_PLUS_MTU_PAD: u32 = 1536;

/// Transmit ring length the driver starts with.
pub const TX_RING_LEN: usize = 8;

/// How many times the reset barrier polls the bus-mode register before it
/// gives the hardware up as hung.
pub const RESET_POLL_LIMIT: u32 = 100000;

/// MII clock range for HCLK of 60-100 MHz.
#[allow(dead_code)]
pub const ETH_MACMIIAR_CR_HCLK_DIV_42: u8 = 0;

/// MII clock range for HCLK of 100-150 MHz.
#[allow(dead_code)]
pub const ETH_MACMIIAR_CR_HCLK_DIV_62: u8 = 1;

/// MII clock range for HCLK of 20-35 MHz.
pub const ETH_MACMIIAR_CR_HCLK_DIV_16: u8 = 2;

/// MII clock range for HCLK of 35-60 MHz.
#[allow(dead_code)]
pub const ETH_MACMIIAR_CR_HCLK_DIV_26: u8 = 3;

/// MII clock range for HCLK of 150-168 MHz.
#[allow(dead_code)]
pub const ETH_MACMIIAR_CR_HCLK_DIV_102: u8 = 4;

/// Fatal faults this driver can surface.  Hardware-detected frame errors
/// and unsupported fragmented frames are absorbed inside the receive ring
/// and never reach a caller.
#[derive(PartialEq, Eq, Structural, Clone, Copy, Debug)]
pub enum EthError {
    /// The DMA reset barrier was still pending after the bounded wait.
    HardwareInitHang,
    /// Descriptor or buffer memory could not be obtained at construction.
    AllocationFailure,
}

/// What initialization programs into the MAC block: frame stripping, fast
/// Ethernet, full duplex, pad/CRC stripping, retry disable, receive and
/// transmit enable; receive-all and promiscuous filtering; a pause time of
/// 0x100; the MII clock range; and a transceiver reset with autonegotiation
/// enabled and restarted.
pub open spec fn mac_programmed(pre: MacRegisters, post: MacRegisters) -> bool {
    &&& post.macmiiar == (pre.macmiiar & !MACMIIAR_CR_MASK) | ((ETH_MACMIIAR_CR_HCLK_DIV_16
        as u32) << MACMIIAR_CR_SHIFT)
    &&& post.maccr == pre.maccr | (MACCR_CSTF | MACCR_FES | MACCR_DM | MACCR_APCS | MACCR_RD
        | MACCR_RE | MACCR_TE)
    &&& post.macffr == pre.macffr | (MACFFR_RA | MACFFR_PM)
    &&& post.macfcr == (pre.macfcr & !MACFCR_PT_MASK) | (0x100u32 << MACFCR_PT_SHIFT)
    &&& post.phy_bcr == (pre.phy_bcr | PHY_BCR_RESET) | (PHY_BCR_AN | PHY_BCR_AN_RESTART)
    &&& post.phy_bsr == pre.phy_bsr
}

/// The operation-mode register after configuration: store-and-forward both
/// ways, no drop on checksum error, no flushing, forward error frames,
/// operate on second frame.
pub open spec fn dma_omr_configured(pre: u32) -> u32 {
    pre | (DMAOMR_DTCEFD | DMAOMR_RSF | DMAOMR_DFRF | DMAOMR_TSF | DMAOMR_FEF | DMAOMR_OSF)
}

/// The bus-mode register after the reset barrier and configuration:
/// address-aligned beats, fixed burst, burst lengths of 32, an Rx:Tx
/// priority ratio of 2:1 and separate burst lengths.
pub open spec fn dma_bmr_configured(pre: u32) -> u32 {
    (((pre | DMABMR_SR) & !DMABMR_SR) & !(DMABMR_PBL_MASK | DMABMR_RDP_MASK
        | DMABMR_RTPR_MASK)) | (DMABMR_AAB | DMABMR_FB | DMABMR_RDP_32 | DMABMR_PBL_32
        | DMABMR_RTPR_2_1 | DMABMR_USP)
}

/// What initialization programs into the DMA block after the reset barrier
/// clears: the operation-mode and bus-mode configurations, everything else
/// untouched.
pub open spec fn dma_programmed(pre: DmaRegisters, post: DmaRegisters) -> bool {
    &&& post.dmaomr == dma_omr_configured(pre.dmaomr)
    &&& post.dmabmr == dma_bmr_configured(pre.dmabmr)
    &&& post.reset_polls == 0
    &&& post.dmasr == pre.dmasr
    &&& post.dmaier == pre.dmaier
    &&& post.dmardlar == pre.dmardlar
    &&& post.dmatdlar == pre.dmatdlar
    &&& post.dmarpdr == pre.dmarpdr
    &&& post.dmatpdr == pre.dmatpdr
}

/// After a transmit hand-off the engine is prompted when it was observed in
/// any state but `Running`; otherwise the register block is untouched.
pub open spec fn tx_poll_effect(pre: DmaRegisters, post: DmaRegisters) -> bool {
    if spec_running_state(tx_status_bits(pre)) != RunningState::Running {
        post == (DmaRegisters { dmatpdr: 1, ..pre })
    } else {
        post == pre
    }
}

/// Acknowledge the pending interrupt summary, receive and transmit bits so
/// the line can be raised again.  Call this from the interrupt handler the
/// embedding application registers; leaving the bits set re-fires the
/// interrupt at once.
pub fn eth_interrupt_handler(eth_dma: &mut DmaRegisters)
    ensures
        *final(eth_dma) == (DmaRegisters {
            dmasr: old(eth_dma).dmasr & !(DMASR_NIS | DMASR_RS | DMASR_TS),
            ..*old(eth_dma)
        }),
{
    eth_dma.dmasr = eth_dma.dmasr & !(DMASR_NIS | DMASR_RS | DMASR_TS);
}

/// The driver: both rings and the MAC and DMA register blocks.
pub struct Eth {
    /// The MAC register block.
    pub eth_mac: MacRegisters,
    /// The DMA register block.
    pub eth_dma: DmaRegisters,
    /// Receive ring.
    pub rx: RxRing,
    /// Transmit ring.
    pub tx: TxRing,
}

impl Eth {
    /// Both rings are well formed.
    pub open spec fn wf(self) -> bool {
        &&& self.rx.wf()
        &&& self.tx.wf()
    }

    /// Initialize and start the engines: program the MAC and DMA blocks,
    /// start transmission on a fresh ring, and start reception when
    /// `rx_ring_len > 0` (zero defers reception to a later
    /// [`start_rx`](Self::start_rx)).  Fails with `HardwareInitHang` when
    /// the reset barrier never clears within the bounded wait.
    #[verifier::rlimit(50)]
    pub fn new(eth_mac: MacRegisters, eth_dma: DmaRegisters, rx_ring_len: usize) -> (r: Result<
        Eth,
        EthError,
    >)
        requires
            rx_ring_len <= MAX_RING_LEN,
        ensures
            match r {
                Ok(eth) => {
                    &&& eth.wf()
                    &&& eth_dma.reset_polls < RESET_POLL_LIMIT
                    &&& mac_programmed(eth_mac, eth.eth_mac)
                    &&& eth.rx.buffer_size == MTU
                    &&& eth.eth_dma.dmabmr == dma_bmr_configured(eth_dma.dmabmr)
                    &&& eth.eth_dma.dmaomr == (if rx_ring_len > 0 {
                        (dma_omr_configured(eth_dma.dmaomr) | DMAOMR_ST) | crate::regs::DMAOMR_SR
                    } else {
                        dma_omr_configured(eth_dma.dmaomr) | DMAOMR_ST
                    })
                    &&& eth.eth_dma.reset_polls == 0
                    &&& eth.eth_dma.dmasr == eth_dma.dmasr
                    &&& eth.eth_dma.dmaier == eth_dma.dmaier
                    &&& eth.eth_dma.dmatpdr == eth_dma.dmatpdr
                    &&& eth.tx.entries@.len() == TX_RING_LEN
                    &&& tx_chain_linked(eth.tx.entries@)
                    &&& queue_count(eth.tx.entries@) == 0
                    &&& eth.eth_dma.dmatdlar == eth.tx.entries@[0].desc.addr
                    &&& if rx_ring_len > 0 {
                        &&& eth.rx.entries@.len() == rx_ring_len
                        &&& chain_linked(eth.rx.entries@)
                        &&& eth.eth_dma.dmardlar == eth.rx.entries@[0].desc.addr
                        &&& eth.eth_dma.dmarpdr == 1
                        &&& eth.rx.next_entry == 0
                        &&& forall|j: int|
                            0 <= j < rx_ring_len
                                ==> spec_owned((#[trigger] eth.rx.entries@[j]).desc.w0)
                    } else {
                        &&& eth.rx.entries@.len() == 0
                        &&& eth.eth_dma.dmardlar == eth_dma.dmardlar
                        &&& eth.eth_dma.dmarpdr == eth_dma.dmarpdr
                    }
                },
                Err(e) => {
                    &&& e == EthError::HardwareInitHang
                    &&& eth_dma.reset_polls >= RESET_POLL_LIMIT
                },
            },
    {
        let mut eth = Eth { eth_mac, eth_dma, rx: RxRing::new(MTU), tx: TxRing::new() };
        match eth.init() {
            Ok(()) => (),
            Err(e) => {
                return Err(e);
            },
        }
        match eth.tx.start(TX_RING_LEN, &mut eth.eth_dma) {
            Ok(()) => (),
            Err(e) => {
                // Unreachable: a fresh transmit arena holds the whole ring.
                proof {
                    assert(false);
                }
                return Err(e);
            },
        }
        if rx_ring_len > 0 {
            proof {
                assert(eth.rx.grow_cost(rx_ring_len as int) <= 1536 * 0x0010_0000)
                    by (nonlinear_arith)
                    requires
                        eth.rx.grow_cost(rx_ring_len as int) == rx_ring_len
                            * (DESC_SIZE_PLUS_MTU_PAD as int),
                        rx_ring_len <= 0x0010_0000;
            }
            proof {
                assert(0x8000_0000u32 & 0x8000_0000u32 == 0x8000_0000u32) by (bit_vector);
            }
            match eth.rx.start(rx_ring_len, &mut eth.eth_dma) {
                Ok(()) => (),
                Err(e) => {
                    // Unreachable: a fresh receive arena holds any ring the
                    // length bound admits.
                    proof {
                        assert(false);
                    }
                    return Err(e);
                },
            }
        }
        Ok(eth)
    }

    /// Program the MAC and DMA blocks as [`mac_programmed`] and
    /// [`dma_programmed`] state, after the bounded reset barrier.
    fn init(&mut self) -> (r: Result<(), EthError>)
        ensures
            final(self).rx == old(self).rx,
            final(self).tx == old(self).tx,
            match r {
                Ok(()) => {
                    &&& old(self).eth_dma.reset_polls < RESET_POLL_LIMIT
                    &&& mac_programmed(old(self).eth_mac, final(self).eth_mac)
                    &&& dma_programmed(old(self).eth_dma, final(self).eth_dma)
                },
                Err(e) => {
                    &&& e == EthError::HardwareInitHang
                    &&& old(self).eth_dma.reset_polls >= RESET_POLL_LIMIT
                    &&& final(self).eth_mac == old(self).eth_mac
                },
            },
    {
        match self.reset_dma_and_wait() {
            Ok(()) => (),
            Err(e) => {
                return Err(e);
            },
        }

        // Clock range in the MAC MII address register.
        self.eth_mac.macmiiar = (self.eth_mac.macmiiar & !MACMIIAR_CR_MASK) | ((
        ETH_MACMIIAR_CR_HCLK_DIV_16 as u32) << MACMIIAR_CR_SHIFT);

        let phy = self.get_phy();
        phy.reset(&mut self.eth_mac);
        phy.set_autoneg(&mut self.eth_mac);

        // Configuration register.
        self.eth_mac.maccr = self.eth_mac.maccr | (MACCR_CSTF | MACCR_FES | MACCR_DM
            | MACCR_APCS | MACCR_RD | MACCR_RE | MACCR_TE);
        // Frame filter register.
        self.eth_mac.macffr = self.eth_mac.macffr | (MACFFR_RA | MACFFR_PM);
        // Flow control register: pause time.
        self.eth_mac.macfcr = (self.eth_mac.macfcr & !MACFCR_PT_MASK) | (
        0x100u32 << MACFCR_PT_SHIFT);
        // Operation mode register.
        self.eth_dma.dmaomr = self.eth_dma.dmaomr | (DMAOMR_DTCEFD | DMAOMR_RSF | DMAOMR_DFRF
            | DMAOMR_TSF | DMAOMR_FEF | DMAOMR_OSF);
        // Bus mode register.
        self.eth_dma.dmabmr = (self.eth_dma.dmabmr & !(DMABMR_PBL_MASK | DMABMR_RDP_MASK
            | DMABMR_RTPR_MASK)) | (DMABMR_AAB | DMABMR_FB | DMABMR_RDP_32 | DMABMR_PBL_32
            | DMABMR_RTPR_2_1 | DMABMR_USP);

        Ok(())
    }

    /// Issue a DMA software reset and poll the bus-mode register until the
    /// hardware acknowledges, up to [`RESET_POLL_LIMIT`] polls; a barrier
    /// still pending then is reported as a hung controller rather than
    /// waited on forever.
    fn reset_dma_and_wait(&mut self) -> (r: Result<(), EthError>)
        ensures
            final(self).eth_mac == old(self).eth_mac,
            final(self).rx == old(self).rx,
            final(self).tx == old(self).tx,
            match r {
                Ok(()) => {
                    &&& old(self).eth_dma.reset_polls < RESET_POLL_LIMIT
                    &&& final(self).eth_dma == (DmaRegisters {
                        dmabmr: (old(self).eth_dma.dmabmr | DMABMR_SR) & !DMABMR_SR,
                        reset_polls: 0,
                        ..old(self).eth_dma
                    })
                },
                Err(e) => {
                    &&& e == EthError::HardwareInitHang
                    &&& old(self).eth_dma.reset_polls >= RESET_POLL_LIMIT
                    &&& final(self).eth_dma == (DmaRegisters {
                        dmabmr: old(self).eth_dma.dmabmr | DMABMR_SR,
                        reset_polls: (old(self).eth_dma.reset_polls - RESET_POLL_LIMIT) as u32,
                        ..old(self).eth_dma
                    })
                },
            },
    {
        self.eth_dma.dmabmr = self.eth_dma.dmabmr | DMABMR_SR;

        let mut i: u32 = 0;
        while i < RESET_POLL_LIMIT
            invariant
                i <= RESET_POLL_LIMIT,
                old(self).eth_dma.reset_polls >= i,
                self.eth_mac == old(self).eth_mac,
                self.rx == old(self).rx,
                self.tx == old(self).tx,
                self.eth_dma == (DmaRegisters {
                    dmabmr: old(self).eth_dma.dmabmr | DMABMR_SR,
                    reset_polls: (old(self).eth_dma.reset_polls - i) as u32,
                    ..old(self).eth_dma
                }),
            decreases RESET_POLL_LIMIT - i,
        {
            if self.eth_dma.reset_polls == 0 {
                // The hardware has completed the reset and clears the flag.
                self.eth_dma.dmabmr = self.eth_dma.dmabmr & !DMABMR_SR;
                return Ok(());
            }
            self.eth_dma.reset_polls = self.eth_dma.reset_polls - 1;
            i = i + 1;
        }
        Err(EthError::HardwareInitHang)
    }

    /// Enable the summary, receive and transmit interrupt sources and
    /// unmask the Ethernet line at the interrupt controller.  The handler
    /// must then call [`eth_interrupt_handler`] to acknowledge, or the
    /// interrupt re-fires at once.
    pub fn enable_interrupt(&mut self, nvic: &mut Nvic)
        ensures
            final(self).eth_mac == old(self).eth_mac,
            final(self).rx == old(self).rx,
            final(self).tx == old(self).tx,
            final(self).eth_dma == (DmaRegisters {
                dmaier: old(self).eth_dma.dmaier | (DMAIER_NISE | DMAIER_RIE | DMAIER_TIE),
                ..old(self).eth_dma
            }),
            final(nvic).eth_enabled,
    {
        self.eth_dma.dmaier = self.eth_dma.dmaier | (DMAIER_NISE | DMAIER_RIE | DMAIER_TIE);
        nvic.enable_eth();
    }

    /// Acknowledge the pending interrupt bits; see [`eth_interrupt_handler`].
    pub fn interrupt_handler(&mut self)
        ensures
            final(self).eth_mac == old(self).eth_mac,
            final(self).rx == old(self).rx,
            final(self).tx == old(self).tx,
            final(self).eth_dma == (DmaRegisters {
                dmasr: old(self).eth_dma.dmasr & !(DMASR_NIS | DMASR_RS | DMASR_TS),
                ..old(self).eth_dma
            }),
    {
        eth_interrupt_handler(&mut self.eth_dma);
    }

    /// A transceiver handle bound to the fixed device address.
    pub fn get_phy(&self) -> (r: Phy)
        ensures
            r.addr == PHY_ADDR,
    {
        Phy::new(PHY_ADDR)
    }

    /// The transceiver's link status.
    pub fn status(&self) -> (r: PhyStatus)
        ensures
            r.bsr == self.eth_mac.phy_bsr,
    {
        let phy = self.get_phy();
        phy.status(&self.eth_mac)
    }

    /// Start (or regrow) the receive ring to `ring_length` entries and
    /// start the receive engine; see [`RxRing::start`].
    pub fn start_rx(&mut self, ring_length: usize) -> (r: Result<(), EthError>)
        requires
            old(self).wf(),
            1 <= ring_length <= MAX_RING_LEN,
        ensures
            final(self).wf(),
            final(self).eth_mac == old(self).eth_mac,
            final(self).tx == old(self).tx,
            match r {
                Ok(()) => {
                    let n = final(self).rx.entries@.len() as int;
                    &&& n == if ring_length > old(self).rx.entries@.len() {
                        ring_length as int
                    } else {
                        old(self).rx.entries@.len() as int
                    }
                    &&& chain_linked(final(self).rx.entries@)
                    &&& final(self).rx.next_entry == 0
                    &&& forall|j: int|
                        0 <= j < old(self).rx.entries@.len() ==> {
                            &&& (#[trigger] final(self).rx.entries@[j]).buffer
                                == old(self).rx.entries@[j].buffer
                            &&& final(self).rx.entries@[j].desc.w0
                                == old(self).rx.entries@[j].desc.w0
                        }
                    &&& forall|j: int|
                        old(self).rx.entries@.len() <= j < n
                            ==> (#[trigger] final(self).rx.entries@[j]).desc.w0
                            == RXDESC_0_OWN
                    &&& final(self).eth_dma == (DmaRegisters {
                        dmardlar: final(self).rx.entries@[0].desc.addr,
                        dmaomr: old(self).eth_dma.dmaomr | crate::regs::DMAOMR_SR,
                        dmarpdr: 1,
                        ..old(self).eth_dma
                    })
                },
                Err(e) => {
                    &&& e == EthError::AllocationFailure
                    &&& final(self).rx == old(self).rx
                    &&& final(self).eth_dma == old(self).eth_dma
                },
            },
    {
        self.rx.start(ring_length, &mut self.eth_dma)
    }

    /// Whether the receive engine is observed running.  It stops when the
    /// ring is full; a later [`recv_next`](Self::recv_next) that frees an
    /// entry prompts it again.
    pub fn rx_is_running(&self) -> (r: bool)
        ensures
            r == (spec_running_state(rx_status_bits(self.eth_dma)) == RunningState::Running),
    {
        let state = self.rx.running_state(&self.eth_dma);
        state.is_running()
    }

    /// Receive the next packet if one is ready, or return `None` at once;
    /// see [`RxRing::recv_next`] for the exact hand-off.
    pub fn recv_next(&mut self) -> (r: Option<Buffer>)
        requires
            old(self).wf(),
            old(self).rx.entries@.len() > 0,
            old(self).rx.arena.next + crate::buffer::padded_size(
                old(self).rx.buffer_size as u32,
            ) <= u32::MAX,
        ensures
            final(self).wf(),
            final(self).eth_mac == old(self).eth_mac,
            final(self).tx == old(self).tx,
            final(self).rx.entries@.len() == old(self).rx.entries@.len(),
            ({
                let i = old(self).rx.next_entry as int;
                let e = old(self).rx.entries@[i];
                let w0 = e.desc.w0;
                if spec_owned(w0) {
                    &&& r is None
                    &&& final(self).rx.entries@ == old(self).rx.entries@
                    &&& final(self).rx.next_entry == old(self).rx.next_entry
                    &&& final(self).eth_dma == old(self).eth_dma
                } else if w0 & RXDESC_0_ES == RXDESC_0_ES {
                    &&& r is None
                    &&& final(self).rx.next_entry == old(self).rx.next_entry
                    &&& final(self).rx.entries@[i].desc.w0 == w0 | RXDESC_0_OWN
                    &&& spec_owned(final(self).rx.entries@[i].desc.w0)
                    &&& final(self).rx.entries@[i].desc.w2 == e.desc.w2
                    &&& final(self).rx.entries@[i].buffer == e.buffer
                    &&& rx_poll_effect(old(self).eth_dma, final(self).eth_dma)
                } else if w0 & RXDESC_0_FS == RXDESC_0_FS && w0 & RXDESC_0_LS == RXDESC_0_LS {
                    let fl = spec_frame_length(w0) as int;
                    let cap = e.buffer.data.len() as int;
                    &&& r matches Some(b) ==> {
                        &&& b.addr == e.buffer.addr
                        &&& b.data@ == e.buffer.data@
                        &&& b.len == if fl <= cap { fl } else { cap }
                        &&& b.addr != final(self).rx.entries@[i].buffer.addr
                    }
                    &&& r is Some
                    &&& final(self).rx.entries@[i].desc.w0 == w0 | RXDESC_0_OWN
                    &&& spec_owned(final(self).rx.entries@[i].desc.w0)
                    &&& final(self).rx.entries@[i].desc.w2
                        == final(self).rx.entries@[i].buffer.addr
                    &&& final(self).rx.next_entry == (if i + 1 == old(self).rx.entries@.len() {
                        0int
                    } else {
                        i + 1
                    })
                    &&& rx_poll_effect(old(self).eth_dma, final(self).eth_dma)
                } else {
                    &&& r is None
                    &&& final(self).rx.entries@[i].desc.w0 == w0 | RXDESC_0_OWN
                    &&& spec_owned(final(self).rx.entries@[i].desc.w0)
                    &&& final(self).rx.entries@[i].buffer == e.buffer
                    &&& final(self).rx.next_entry == (if i + 1 == old(self).rx.entries@.len() {
                        0int
                    } else {
                        i + 1
                    })
                    &&& rx_poll_effect(old(self).eth_dma, final(self).eth_dma)
                }
            }),
    {
        self.rx.recv_next(&mut self.eth_dma)
    }

    /// Install `buffer` on the transmit ring as one whole frame (the DMA is
    /// asynchronous, so ownership of the buffer is taken) and prompt an
    /// engine observed not running.  A full ring hands the buffer back.
    pub fn send(&mut self, buffer: Buffer) -> (r: Result<(), Buffer>)
        requires
            old(self).wf(),
            old(self).tx.entries@.len() > 0,
            buffer.wf(),
            buffer.len <= TXDESC_1_TBS_MASK,
        ensures
            final(self).wf(),
            final(self).eth_mac == old(self).eth_mac,
            final(self).rx == old(self).rx,
            final(self).tx.entries@.len() == old(self).tx.entries@.len(),
            tx_poll_effect(old(self).eth_dma, final(self).eth_dma),
            ({
                let i = old(self).tx.next_entry as int;
                let e = old(self).tx.entries@[i];
                if spec_owned(e.desc.w0) {
                    &&& r matches Err(b) && b == buffer
                    &&& final(self).tx.entries@ == old(self).tx.entries@
                    &&& final(self).tx.next_entry == old(self).tx.next_entry
                } else {
                    &&& r is Ok
                    &&& final(self).tx.entries@[i].desc.w0 == e.desc.w0 | (TXDESC_0_FS
                        | TXDESC_0_LS | TXDESC_0_OWN)
                    &&& final(self).tx.entries@[i].desc.w1 == (e.desc.w1
                        & !TXDESC_1_TBS_MASK) | buffer.len as u32
                    &&& final(self).tx.entries@[i].desc.w2 == buffer.addr
                    &&& final(self).tx.entries@[i].buffer == Some(buffer)
                    &&& final(self).tx.next_entry == (if i + 1 == old(self).tx.entries@.len() {
                        0int
                    } else {
                        i + 1
                    })
                    &&& queue_count(final(self).tx.entries@) == queue_count(
                        old(self).tx.entries@,
                    ) + 1
                }
            }),
    {
        let r = self.tx.send(buffer);
        if !self.tx.is_running(&self.eth_dma) {
            self.tx.demand_poll(&mut self.eth_dma);
        }
        r
    }

    /// Number of unsent packets still queued on the transmit ring.
    pub fn queue_len(&self) -> (r: usize)
        ensures
            r == queue_count(self.tx.entries@),
    {
        self.tx.queue_len()
    }
}

} // verus!
