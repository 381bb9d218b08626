//! Model of the controller's register blocks.
//!
//! The driver core programs named bit fields of the MAC and DMA register
//! blocks and reads status fields back.  The raw volatile access mechanism is
//! a primitive outside this core; each block is held here as plain words so
//! that every read-modify-write the driver performs is stated exactly.  The
//! fields the autonomous engine writes on its own (the process status codes,
//! the bus-mode reset acknowledgement, the PHY registers reachable over the
//! management bus) are ordinary fields of the model that the embedding
//! updates in the hardware's stead.

use vstd::prelude::*;

verus! {

/// Bus mode: software reset.
pub const DMABMR_SR: u32 = 0x0000_0001;
/// Bus mode: programmable burst length field (bits 13:8).
pub const DMABMR_PBL_MASK: u32 = 0x0000_3F00;
/// Bus mode: programmable burst length of 32 beats.
pub const DMABMR_PBL_32: u32 = 0x0000_2000;
/// Bus mode: Rx:Tx priority ratio field (bits 15:14).
pub const DMABMR_RTPR_MASK: u32 = 0x0000_C000;
/// Bus mode: Rx:Tx priority ratio 2:1.
pub const DMABMR_RTPR_2_1: u32 = 0x0000_4000;
/// Bus mode: fixed burst.
pub const DMABMR_FB: u32 = 0x0001_0000;
/// Bus mode: Rx DMA programmable burst length field (bits 22:17).
pub const DMABMR_RDP_MASK: u32 = 0x007E_0000;
/// Bus mode: Rx DMA programmable burst length of 32 beats.
pub const DMABMR_RDP_32: u32 = 0x0040_0000;
/// Bus mode: use separate programmable burst lengths.
pub const DMABMR_USP: u32 = 0x0080_0000;
/// Bus mode: address-aligned beats.
pub const DMABMR_AAB: u32 = 0x0200_0000;

/// Operation mode: start receive.
pub const DMAOMR_SR: u32 = 0x0000_0002;
/// Operation mode: operate on second frame.
pub const DMAOMR_OSF: u32 = 0x0000_0004;
/// Operation mode: forward error frames.
pub const DMAOMR_FEF: u32 = 0x0000_0080;
/// Operation mode: start transmit.
pub const DMAOMR_ST: u32 = 0x0000_2000;
/// Operation mode: transmit store and forward.
pub const DMAOMR_TSF: u32 = 0x0020_0000;
/// Operation mode: disable flushing of received frames.
pub const DMAOMR_DFRF: u32 = 0x0100_0000;
/// Operation mode: receive store and forward.
pub const DMAOMR_RSF: u32 = 0x0200_0000;
/// Operation mode: do not drop TCP/IP checksum error frames.
pub const DMAOMR_DTCEFD: u32 = 0x0400_0000;

/// Status: transmit interrupt pending.
pub const DMASR_TS: u32 = 0x0000_0001;
/// Status: receive interrupt pending.
pub const DMASR_RS: u32 = 0x0000_0040;
/// Status: normal interrupt summary pending.
pub const DMASR_NIS: u32 = 0x0001_0000;
/// Status: receive process state field shift (bits 19:17).
pub const DMASR_RPS_SHIFT: u32 = 17;
/// Status: transmit process state field shift (bits 22:20).
pub const DMASR_TPS_SHIFT: u32 = 20;

/// Interrupt enable: transmit interrupt.
pub const DMAIER_TIE: u32 = 0x0000_0001;
/// Interrupt enable: receive interrupt.
pub const DMAIER_RIE: u32 = 0x0000_0040;
/// Interrupt enable: normal interrupt summary.
pub const DMAIER_NISE: u32 = 0x0001_0000;

/// MII address: clock range field (bits 4:2).
pub const MACMIIAR_CR_MASK: u32 = 0x0000_001C;
/// MII address: clock range field shift.
pub const MACMIIAR_CR_SHIFT: u32 = 2;

/// Configuration: receiver enable.
pub const MACCR_RE: u32 = 0x0000_0004;
/// Configuration: transmitter enable.
pub const MACCR_TE: u32 = 0x0000_0008;
/// Configuration: automatic pad/CRC stripping.
pub const MACCR_APCS: u32 = 0x0000_0080;
/// Configuration: retry disable.
pub const MACCR_RD: u32 = 0x0000_0200;
/// Configuration: duplex mode.
pub const MACCR_DM: u32 = 0x0000_0800;
/// Configuration: fast Ethernet speed.
pub const MACCR_FES: u32 = 0x0000_4000;
/// Configuration: CRC stripping for Type frames.
pub const MACCR_CSTF: u32 = 0x0200_0000;

/// Frame filter: promiscuous mode.
pub const MACFFR_PM: u32 = 0x0000_0001;
/// Frame filter: receive all.
pub const MACFFR_RA: u32 = 0x8000_0000;

/// Flow control: pause time field (bits 31:16).
pub const MACFCR_PT_MASK: u32 = 0xFFFF_0000;
/// Flow control: pause time field shift.
pub const MACFCR_PT_SHIFT: u32 = 16;

/// MAC register block, with the PHY registers reachable over its
/// management bus.
pub struct MacRegisters {
    /// MII address register.
    pub macmiiar: u32,
    /// Configuration register.
    pub maccr: u32,
    /// Frame filter register.
    pub macffr: u32,
    /// Flow control register.
    pub macfcr: u32,
    /// The PHY's basic control register; a management-bus write reaches it.
    pub phy_bcr: u16,
    /// The PHY's basic status register; a management-bus read returns it.
    pub phy_bsr: u16,
}

impl MacRegisters {
    /// A register block with every modeled register cleared.
    pub fn new() -> (r: MacRegisters)
        ensures
            r.macmiiar == 0,
            r.maccr == 0,
            r.macffr == 0,
            r.macfcr == 0,
            r.phy_bcr == 0,
            r.phy_bsr == 0,
    {
        MacRegisters {
            macmiiar: 0,
            maccr: 0,
            macffr: 0,
            macfcr: 0,
            phy_bcr: 0,
            phy_bsr: 0,
        }
    }
}

/// DMA register block.
pub struct DmaRegisters {
    /// Bus mode register.
    pub dmabmr: u32,
    /// Operation mode register.
    pub dmaomr: u32,
    /// Status register; the process state fields and the pending bits are
    /// written by the engine, acknowledged by software.
    pub dmasr: u32,
    /// Interrupt enable register.
    pub dmaier: u32,
    /// Receive descriptor list address register.
    pub dmardlar: u32,
    /// Transmit descriptor list address register.
    pub dmatdlar: u32,
    /// Receive poll demand register.
    pub dmarpdr: u32,
    /// Transmit poll demand register.
    pub dmatpdr: u32,
    /// How many polls of the bus-mode register the model engine takes to
    /// acknowledge a software reset; counts down while software waits.
    pub reset_polls: u32,
}

impl DmaRegisters {
    /// A register block with every modeled register cleared.
    pub fn new() -> (r: DmaRegisters)
        ensures
            r.dmabmr == 0,
            r.dmaomr == 0,
            r.dmasr == 0,
            r.dmaier == 0,
            r.dmardlar == 0,
            r.dmatdlar == 0,
            r.dmarpdr == 0,
            r.dmatpdr == 0,
            r.reset_polls == 0,
    {
        DmaRegisters {
            dmabmr: 0,
            dmaomr: 0,
            dmasr: 0,
            dmaier: 0,
            dmardlar: 0,
            dmatdlar: 0,
            dmarpdr: 0,
            dmatpdr: 0,
            reset_polls: 0,
        }
    }
}

/// Interrupt controller, reduced to the one line this driver touches.
pub struct Nvic {
    /// Whether the Ethernet interrupt line is unmasked.
    pub eth_enabled: bool,
}

impl Nvic {
    /// A controller with the Ethernet line masked.
    pub fn new() -> (r: Nvic)
        ensures
            !r.eth_enabled,
    {
        Nvic { eth_enabled: false }
    }

    /// Unmask the Ethernet interrupt line.
    pub fn enable_eth(&mut self)
        ensures
            final(self).eth_enabled,
    {
        self.eth_enabled = true;
    }
}

} // verus!
