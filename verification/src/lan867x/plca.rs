//! PLCA (Physical Layer Collision Avoidance, IEEE 802.3 Clause 148)
//! configuration types.
use vstd::prelude::*;

verus! {

/// PLCA configuration.
#[derive(Debug, Clone, Copy, PartialEq, Eq, Structural)]
pub struct PlcaConfig {
    /// Local node ID. `0` = bus coordinator (exactly one on the segment),
    /// `1..=0xFE` = follower. `0xFF` is the silicon's "disabled" sentinel
    /// and is rejected by `configure_plca`; use `disable_plca` instead.
    pub node_id: u8,
    /// Total node count on the segment (`NCNT`). Followers may set it to 0.
    pub node_count: u8,
    /// Burst-mode max additional packets per transmit opportunity.
    /// `0` = burst disabled.
    pub burst_count: u8,
    /// Burst timer in bit times. `0` = leave the chip default (`0x80`).
    pub burst_timer: u8,
}

impl Default for PlcaConfig {
    /// Coordinator with an 8-node segment, no burst.
    fn default() -> (r: Self)
        ensures
            r == (PlcaConfig { node_id: 0, node_count: 8, burst_count: 0, burst_timer: 0 }),
    {
        Self { node_id: 0, node_count: 8, burst_count: 0, burst_timer: 0 }
    }
}

/// PLCA runtime state.
#[derive(Debug, Clone, Copy, PartialEq, Eq, Structural)]
pub struct PlcaStatus {
    /// PLCA reconciliation sublayer enabled (`PLCA_CTRL0.EN`).
    pub enabled: bool,
    /// Local node ID (`PLCA_CTRL1.ID`).
    pub node_id: u8,
    /// `node_id == 0`. The coordinator transmits the periodic BEACONs.
    pub is_coordinator: bool,
    /// `PLCA_STS.PST` — BEACONs are being transmitted (coordinator) or
    /// received (follower) regularly.
    pub stable: bool,
}

/// Errors from PLCA-related driver methods.
#[derive(Debug)]
#[non_exhaustive]
pub enum PlcaError<E> {
    /// MDIO bus error (passthrough).
    Mdio(E),
    /// Configuration values are invalid: `node_id == 0xFF`, or a follower
    /// with `node_id >= node_count` (non-zero count).
    InvalidConfig,
    /// PLCA has not been configured on this driver.
    NotConfigured,
}

} // verus!
