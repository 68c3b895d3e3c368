//! LAN87xx vendor-specific register definitions.
//!
//! Covers LAN8710A, LAN8720A, LAN8740A, LAN8741A, LAN8742A.
use vstd::prelude::*;

pub mod imr;
pub mod isr;
pub mod mcsr;
pub mod pscsr;

verus! {

/// PHY OUI (Organizationally Unique Identifier) for the LAN87xx family.
///
/// The 32-bit PHY ID read from PHYIDR1/PHYIDR2 encodes the OUI in the
/// upper 22 bits. Mask with [`PHY_OUI_MASK`] before comparing.
pub const PHY_OUI: u32 = 0x0007_C000;

/// Mask to extract the OUI portion from a 32-bit PHY ID.
pub const PHY_OUI_MASK: u32 = 0xFFFF_FC00;

} // verus!
