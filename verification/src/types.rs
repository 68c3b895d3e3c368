//! Shared types for Ethernet PHY drivers.
//!
//! The names ([`Speed`], [`Duplex`], [`LinkState`]) and variant identifiers
//! (`Speed::_10M`, `Speed::_100M`) mirror the `esp_hal::ethernet::mac` shape
//! so bridging a [`PhyDriver`](crate::PhyDriver) to an esp-hal PHY adapter is
//! a near-identity transform.
use vstd::prelude::*;

verus! {

/// Ethernet link speed.
#[derive(Debug, Clone, Copy, PartialEq, Eq, Structural)]
#[non_exhaustive]
pub enum Speed {
    /// 10 Mbit/s
    _10M,
    /// 100 Mbit/s
    _100M,
}

/// Ethernet duplex mode.
#[derive(Debug, Clone, Copy, PartialEq, Eq, Structural)]
#[non_exhaustive]
pub enum Duplex {
    /// Half duplex
    Half,
    /// Full duplex
    Full,
}

/// Negotiated link state reported by the PHY.
///
/// `up` signals whether a carrier is present. When `up == false` the
/// `speed` and `duplex` fields carry no meaning.
#[derive(Debug, Clone, Copy, PartialEq, Eq, Structural)]
pub struct LinkState {
    /// Whether the link is currently established (carrier present).
    pub up: bool,
    /// Negotiated link speed. Valid only when `up == true`.
    pub speed: Speed,
    /// Negotiated duplex mode. Valid only when `up == true`.
    pub duplex: Duplex,
}

/// The "up" link state with the given parameters.
pub open spec fn link_up_state(speed: Speed, duplex: Duplex) -> LinkState {
    LinkState { up: true, speed, duplex }
}

/// The link state reported while the link is down: the parameters are a
/// fixed default so that two such values compare equal.
pub open spec fn link_down_state() -> LinkState {
    LinkState { up: false, speed: Speed::_100M, duplex: Duplex::Full }
}

impl LinkState {
    /// Construct a `LinkState` reporting the link as down. The `speed` /
    /// `duplex` fields are set to a deterministic default (`Speed::_100M`,
    /// `Duplex::Full`) so the value compares equal across calls.
    pub fn down() -> (r: Self)
        ensures
            r == link_down_state(),
    {
        Self { up: false, speed: Speed::_100M, duplex: Duplex::Full }
    }

    /// Construct an "up" `LinkState` with the given parameters.
    pub fn up(speed: Speed, duplex: Duplex) -> (r: Self)
        ensures
            r == link_up_state(speed, duplex),
    {
        Self { up: true, speed, duplex }
    }
}

/// Two "up" link states are equal exactly when their speeds and duplex
/// modes are; in particular the four speed/duplex combinations are pairwise
/// distinct.
pub proof fn lemma_link_up_injective(s1: Speed, d1: Duplex, s2: Speed, d2: Duplex)
    ensures
        (link_up_state(s1, d1) == link_up_state(s2, d2)) <==> (s1 == s2 && d1 == d2),
        link_up_state(s1, d1) != link_down_state(),
{
}

/// An "up" link state says the link is up and carries exactly the speed
/// and duplex it was made with; the "down" state says the link is down.
pub proof fn lemma_link_state_fields(speed: Speed, duplex: Duplex)
    ensures
        link_up_state(speed, duplex).up,
        link_up_state(speed, duplex).speed == speed,
        link_up_state(speed, duplex).duplex == duplex,
        !link_down_state().up,
{
}

/// PHY hardware capabilities.
#[derive(Debug, Clone, Copy, PartialEq, Eq, Structural)]
pub struct PhyCapabilities {
    /// 100BASE-TX full duplex
    pub speed_100_fd: bool,
    /// 100BASE-TX half duplex
    pub speed_100_hd: bool,
    /// 10BASE-T full duplex
    pub speed_10_fd: bool,
    /// 10BASE-T half duplex
    pub speed_10_hd: bool,
    /// Auto-negotiation supported
    pub auto_negotiation: bool,
    /// PAUSE flow control supported
    pub pause: bool,
}

impl Default for PhyCapabilities {
    /// No capability at all.
    fn default() -> (r: Self)
        ensures
            r == (PhyCapabilities {
                speed_100_fd: false,
                speed_100_hd: false,
                speed_10_fd: false,
                speed_10_hd: false,
                auto_negotiation: false,
                pause: false,
            }),
    {
        PhyCapabilities {
            speed_100_fd: false,
            speed_100_hd: false,
            speed_10_fd: false,
            speed_10_hd: false,
            auto_negotiation: false,
            pause: false,
        }
    }
}

} // verus!
