//! BMSR (Basic Mode Status Register) bit definitions.
use vstd::prelude::*;

verus! {

/// 100BASE-T4 capable.
pub const T4_CAPABLE: u16 = 0x8000;
/// 100BASE-TX full duplex capable.
pub const TX_FD_CAPABLE: u16 = 0x4000;
/// 100BASE-TX half duplex capable.
pub const TX_HD_CAPABLE: u16 = 0x2000;
/// 10BASE-T full duplex capable.
pub const T10_FD_CAPABLE: u16 = 0x1000;
/// 10BASE-T half duplex capable.
pub const T10_HD_CAPABLE: u16 = 0x0800;
/// Auto-negotiation complete.
pub const AN_COMPLETE: u16 = 0x0020;
/// Remote fault detected.
pub const REMOTE_FAULT: u16 = 0x0010;
/// Auto-negotiation ability.
pub const AN_ABILITY: u16 = 0x0008;
/// Link status (1 = link up).
pub const LINK_STATUS: u16 = 0x0004;
/// Jabber detect (10BASE-T only).
pub const JABBER_DETECT: u16 = 0x0002;
/// Extended register capability.
pub const EXT_CAPABLE: u16 = 0x0001;

} // verus!
