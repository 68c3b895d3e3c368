//! ANAR (Auto-Negotiation Advertisement Register) bit definitions.
use vstd::prelude::*;

verus! {

/// Advertise 100BASE-TX full duplex.
pub const TX_FD: u16 = 0x0100;
/// Advertise 100BASE-TX half duplex.
pub const TX_HD: u16 = 0x0080;
/// Advertise 10BASE-T full duplex.
pub const T10_FD: u16 = 0x0040;
/// Advertise 10BASE-T half duplex.
pub const T10_HD: u16 = 0x0020;
/// IEEE 802.3 selector field.
pub const SELECTOR_IEEE802_3: u16 = 0x0001;

} // verus!
