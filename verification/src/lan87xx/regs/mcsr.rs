//! Mode Control/Status Register (vendor register 17).
use vstd::prelude::*;

verus! {

/// Register address.
pub const ADDR: u8 = 17;
/// Energy Detect Power-Down enable.
pub const EDPD_EN: u16 = 0x4000;
/// Energy-on detected (read-only status bit).
pub const ENERGYON: u16 = 0x0002;

} // verus!
