//! Interrupt Source Register (vendor register 29).
//! Not used by the driver; provided for completeness.
use vstd::prelude::*;

verus! {

/// Register address.
pub const ADDR: u8 = 29;
/// Energy-on generated interrupt.
pub const ENERGYON: u16 = 0x0080;
/// Auto-negotiation complete.
pub const AN_COMPLETE: u16 = 0x0040;
/// Remote fault detected.
pub const REMOTE_FAULT: u16 = 0x0020;
/// Link down (link status changed to down).
pub const LINK_DOWN: u16 = 0x0010;
/// Auto-negotiation LP acknowledge.
pub const AN_LP_ACK: u16 = 0x0008;
/// Parallel detection fault.
pub const PD_FAULT: u16 = 0x0004;
/// Auto-negotiation page received.
pub const AN_PAGE_RX: u16 = 0x0002;

} // verus!
