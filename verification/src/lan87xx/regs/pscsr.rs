//! PHY Special Control/Status Register (vendor register 31).
use vstd::prelude::*;

verus! {

/// Register address.
pub const ADDR: u8 = 31;
/// Auto-negotiation done indicator. The speed / duplex indication field
/// (bits [4:2]) is only valid once this bit is set.
pub const AUTODONE: u16 = 0x1000;
/// Mask for the speed/duplex indication field (bits [4:2]).
pub const SPEED_DUPLEX_MASK: u16 = 0x001C;
/// 10 Mbps half duplex.
pub const SPEED_10_HD: u16 = 0x0004;
/// 10 Mbps full duplex.
pub const SPEED_10_FD: u16 = 0x0014;
/// 100 Mbps half duplex.
pub const SPEED_100_HD: u16 = 0x0008;
/// 100 Mbps full duplex.
pub const SPEED_100_FD: u16 = 0x0018;

} // verus!
