//! Interrupt Mask Register (vendor register 30). Bit layout mirrors the
//! interrupt source register; writing a 1 enables the interrupt.
//! Not used by the driver; provided for completeness.
use vstd::prelude::*;

verus! {

/// Register address.
pub const ADDR: u8 = 30;

} // verus!
