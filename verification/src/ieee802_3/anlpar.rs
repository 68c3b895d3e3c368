//! ANLPAR (Auto-Negotiation Link Partner Ability Register) bit definitions.
use vstd::prelude::*;

verus! {

/// Link partner can 100BASE-TX full duplex.
pub const CAN_100_FD: u16 = 0x0100;
/// Link partner can 100BASE-TX half duplex.
pub const CAN_100_HD: u16 = 0x0080;
/// Link partner can 10BASE-T full duplex.
pub const CAN_10_FD: u16 = 0x0040;
/// Link partner can 10BASE-T half duplex.
pub const CAN_10_HD: u16 = 0x0020;
/// Link partner supports PAUSE flow control.
pub const PAUSE: u16 = 0x0400;

} // verus!
