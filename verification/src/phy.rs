//! PHY driver trait and common error type.
use crate::mdio::MdioBus;
use crate::types::{LinkState, PhyCapabilities};
use vstd::prelude::*;

verus! {

/// Common error type for PHY driver operations.
#[derive(Debug)]
#[non_exhaustive]
pub enum PhyError<E> {
    /// MDIO bus error (passthrough).
    Mdio(E),
    /// PHY soft reset did not complete within allowed attempts.
    ResetTimeout,
    /// PHY ID does not match expected chip family.
    UnsupportedChip {
        /// The actual PHY ID read from registers.
        id: u32,
    },
    /// PHY ID matched the expected family, but a chip-specific package or
    /// variant strap did not.
    UnsupportedPackage {
        /// Raw strap-register value the driver could not decode,
        /// zero-extended to 32 bits.
        strap: u32,
    },
}

impl<E> From<E> for PhyError<E> {
    fn from(e: E) -> (r: Self) {
        PhyError::Mdio(e)
    }
}

impl<E> vstd::std_specs::convert::FromSpecImpl<E> for PhyError<E> {
    open spec fn obeys_from_spec() -> bool {
        true
    }

    /// A bus error becomes the `Mdio` variant, unchanged.
    open spec fn from_spec(v: E) -> Self {
        PhyError::Mdio(v)
    }
}

/// Ethernet PHY driver — one implementation per chip family.
///
/// Every method except [`phy_addr`](Self::phy_addr) takes the bus
/// generically so a single driver instance can talk to different concrete
/// buses across a session. The drivers of this crate state in their own
/// contracts exactly which transactions each method issues.
pub trait PhyDriver {
    /// PHY address on the MDIO bus (0-31).
    fn phy_addr(&self) -> u8;

    /// Initialize PHY: reset, configure, enable auto-negotiation.
    fn init<M: MdioBus>(&mut self, mdio: &mut M) -> Result<(), PhyError<M::Error>>;

    /// Poll link status. Returns `Some(LinkState)` when up, `None` when down.
    fn poll_link<M: MdioBus>(&mut self, mdio: &mut M) -> Result<
        Option<LinkState>,
        PhyError<M::Error>,
    >;

    /// Query hardware capabilities.
    fn capabilities<M: MdioBus>(&self, mdio: &mut M) -> Result<
        PhyCapabilities,
        PhyError<M::Error>,
    >;

    /// Read the 32-bit PHY identifier `(reg_0x02 << 16) | reg_0x03`.
    fn phy_id<M: MdioBus>(&self, mdio: &mut M) -> Result<u32, PhyError<M::Error>>;
}

} // verus!

verus! {

/// A run of a bus-level operation whose bus errors are passed through as
/// [`PhyError::Mdio`].
pub open spec fn with_phy_error<T, E>(run: Option<(Result<T, E>, int)>) -> Option<
    (Result<T, PhyError<E>>, int),
> {
    match run {
        None => None,
        Some((Ok(v), j)) => Some((Ok(v), j)),
        Some((Err(e), j)) => Some((Err(PhyError::Mdio(e)), j)),
    }
}

} // verus!
