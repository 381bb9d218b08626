//! PHY transceiver collaborator, addressed over the MAC's serial
//! management bus.
//!
//! Link negotiation itself happens inside the transceiver; this driver only
//! issues a reset, enables autonegotiation and reads the link status back.
//! The serial transaction that moves a register value across the management
//! bus is a primitive outside this core: here it is one atomic access to
//! the PHY register fields held in [`MacRegisters`].

use vstd::prelude::*;

use crate::regs::MacRegisters;

verus! {

/// Basic control: software reset.
pub const PHY_BCR_RESET: u16 = 0x8000;
/// Basic control: enable autonegotiation.
pub const PHY_BCR_AN: u16 = 0x1000;
/// Basic control: restart autonegotiation.
pub const PHY_BCR_AN_RESTART: u16 = 0x0200;
/// Basic status: link is up.
pub const PHY_BSR_LINK_UP: u16 = 0x0004;
/// Basic status: autonegotiation completed.
pub const PHY_BSR_AN_DONE: u16 = 0x0020;

/// A handle on the transceiver at a fixed management-bus device address.
pub struct Phy {
    /// Device address on the management bus.
    pub addr: u8,
}

/// A snapshot of the transceiver's basic status register.
pub struct PhyStatus {
    /// The raw basic status register value.
    pub bsr: u16,
}

impl PhyStatus {
    /// Whether the transceiver reports an established link.
    pub fn link_detected(&self) -> (r: bool)
        ensures
            r == (self.bsr & PHY_BSR_LINK_UP == PHY_BSR_LINK_UP),
    {
        (self.bsr & PHY_BSR_LINK_UP) == PHY_BSR_LINK_UP
    }

    /// Whether autonegotiation has completed.
    pub fn autoneg_done(&self) -> (r: bool)
        ensures
            r == (self.bsr & PHY_BSR_AN_DONE == PHY_BSR_AN_DONE),
    {
        (self.bsr & PHY_BSR_AN_DONE) == PHY_BSR_AN_DONE
    }
}

impl Phy {
    /// A handle bound to the device at `addr`.
    pub fn new(addr: u8) -> (r: Phy)
        ensures
            r.addr == addr,
    {
        Phy { addr }
    }

    /// Issue a software reset to the transceiver.
    pub fn reset(&self, mac: &mut MacRegisters)
        ensures
            *final(mac) == (MacRegisters {
                phy_bcr: old(mac).phy_bcr | PHY_BCR_RESET,
                ..*old(mac)
            }),
    {
        mac.phy_bcr = mac.phy_bcr | PHY_BCR_RESET;
    }

    /// Enable and restart autonegotiation.
    pub fn set_autoneg(&self, mac: &mut MacRegisters)
        ensures
            *final(mac) == (MacRegisters {
                phy_bcr: old(mac).phy_bcr | (PHY_BCR_AN | PHY_BCR_AN_RESTART),
                ..*old(mac)
            }),
    {
        mac.phy_bcr = mac.phy_bcr | (PHY_BCR_AN | PHY_BCR_AN_RESTART);
    }

    /// Read the basic status register back over the management bus.
    pub fn status(&self, mac: &MacRegisters) -> (r: PhyStatus)
        ensures
            r.bsr == mac.phy_bsr,
    {
        PhyStatus { bsr: mac.phy_bsr }
    }
}

} // verus!
