//! IEEE 802.3 Clause 22 standard register addresses (0-6).
use vstd::prelude::*;

verus! {

/// Basic Mode Control Register.
pub const BMCR: u8 = 0;
/// Basic Mode Status Register.
pub const BMSR: u8 = 1;
/// PHY Identifier Register 1 (OUI bits 3-18).
pub const PHYIDR1: u8 = 2;
/// PHY Identifier Register 2 (OUI bits 19-24, model, revision).
pub const PHYIDR2: u8 = 3;
/// Auto-Negotiation Advertisement Register.
pub const ANAR: u8 = 4;
/// Auto-Negotiation Link Partner Ability Register.
pub const ANLPAR: u8 = 5;
/// Auto-Negotiation Expansion Register.
pub const ANER: u8 = 6;

} // verus!
