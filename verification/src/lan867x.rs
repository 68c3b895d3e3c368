//! MDIO driver for the Microchip LAN867x family of 10BASE-T1S Ethernet
//! PHYs (IEEE 802.3cg-2019 Clause 147):
//!
//! - LAN8670 (32-VQFN, MII or RMII)
//! - LAN8671 (24-VQFN, RMII only)
//! - LAN8672 (36-VQFN, MII only)
//!
//! 10BASE-T1S is single-pair, half-duplex, multidrop Ethernet. There is no
//! auto-negotiation, and `BMSR.LINK_STATUS` is hard-wired 1 — useless for
//! link detection: [`PhyLan867x::poll_link`](crate::PhyDriver::poll_link)
//! reads `PLCA_STS.PST` when PLCA is enabled. Most operational state lives
//! in MMD-31, reached via the Annex 22D indirection of [`mmd`]. The chip
//! ships with multidrop disabled; `init` sets `T1SPMACTL.MDE = 1`.
use crate::ieee802_3::{self, read_capabilities_run, read_phy_id_run, soft_reset_run};
use crate::mdio::{addressed_to, extends, op_phy, read_at, write_at, MdioBus, MdioOp};
use crate::phy::{with_phy_error, PhyDriver, PhyError};
use crate::types::{link_up_state, Duplex, LinkState, PhyCapabilities, Speed};
use mmd::{mmd_read_run, mmd_rmw_run, mmd_write_run};
use vstd::prelude::*;

pub mod mmd;
pub mod plca;
pub mod regs;

pub use plca::{PlcaConfig, PlcaError, PlcaStatus};

verus! {

/// How many BMCR polls `init` allows for the soft reset to complete.
pub const SOFT_RESET_ATTEMPTS: u32 = 500;

/// How many `STS2` reads `init` allows for the reset-complete handshake.
pub const RESETC_ATTEMPTS: u32 = 500;

/// Concrete LAN867x family member, identified at `init` time from
/// `STRAP_CTRL0.PKGTYP`.
#[derive(Debug, Clone, Copy, PartialEq, Eq, Structural)]
pub enum Chip {
    /// LAN8670 — 32-VQFN, supports both MII and RMII.
    Lan8670,
    /// LAN8671 — 24-VQFN, RMII only.
    Lan8671,
    /// LAN8672 — 36-VQFN, MII only.
    Lan8672,
}

// ── Values ─────────────────────────────────────────────────────────────

/// The package a `STRAP_CTRL0` value names, if its `PKGTYP` field is one
/// of the three documented encodings.
pub open spec fn chip_from_strap(strap: u16) -> Option<Chip> {
    let pkgtyp = strap & regs::STRAP_CTRL0_PKGTYP_MASK;
    if pkgtyp == regs::STRAP_CTRL0_PKGTYP_LAN8670 {
        Some(Chip::Lan8670)
    } else if pkgtyp == regs::STRAP_CTRL0_PKGTYP_LAN8671 {
        Some(Chip::Lan8671)
    } else if pkgtyp == regs::STRAP_CTRL0_PKGTYP_LAN8672 {
        Some(Chip::Lan8672)
    } else {
        None
    }
}

/// A PHY ID of the LAN867x family, whatever its silicon revision.
pub open spec fn is_lan867x_id(id: u32) -> bool {
    id & regs::PHY_OUI_MODEL_MASK == regs::PHY_OUI_MODEL_LAN867X
}

/// The link a 10BASE-T1S bus offers when it is usable.
pub open spec fn t1s_link() -> LinkState {
    link_up_state(Speed::_10M, Duplex::Half)
}

/// The configurations `configure_plca` accepts: not the disabled sentinel,
/// and a follower's ID below a non-zero node count.
pub open spec fn plca_config_valid(config: PlcaConfig) -> bool {
    &&& config.node_id != regs::PLCA_ID_DISABLED
    &&& !(config.node_count != 0 && config.node_id >= config.node_count)
}

/// `PLCA_CTRL1 = NCNT[15:8] | ID[7:0]`.
pub open spec fn plca_ctrl1_value(config: PlcaConfig) -> u16 {
    ((config.node_count as u16) << regs::PLCA_CTRL1_NCNT_SHIFT) | (config.node_id as u16)
}

/// The burst timer programmed: `0` stands for the chip default `0x80`.
pub open spec fn plca_burst_timer(config: PlcaConfig) -> u16 {
    if config.burst_timer == 0 {
        0x80u16
    } else {
        config.burst_timer as u16
    }
}

/// `PLCA_BURST = MAXBC[15:8] | BTMR[7:0]`.
pub open spec fn plca_burst_value(config: PlcaConfig) -> u16 {
    ((config.burst_count as u16) << 8u16) | plca_burst_timer(config)
}

/// The PLCA status the three PLCA registers describe.
pub open spec fn plca_status_from(ctrl0: u16, ctrl1: u16, sts: u16) -> PlcaStatus {
    let id = (ctrl1 & regs::PLCA_CTRL1_ID_MASK) as u8;
    PlcaStatus {
        enabled: ctrl0 & regs::PLCA_CTRL0_EN != 0,
        node_id: id,
        is_coordinator: id == regs::PLCA_ID_COORDINATOR,
        stable: sts & regs::PLCA_STS_PST != 0,
    }
}

// ── Runs ───────────────────────────────────────────────────────────────

/// A run of an MDIO-level operation whose bus errors are passed through as
/// [`PlcaError::Mdio`].
pub open spec fn with_plca_error<T, E>(run: Option<(Result<T, E>, int)>) -> Option<
    (Result<T, PlcaError<E>>, int),
> {
    match run {
        None => None,
        Some((Ok(v), j)) => Some((Ok(v), j)),
        Some((Err(e), j)) => Some((Err(PlcaError::Mdio(e)), j)),
    }
}

/// The reset-complete handshake, at most `n` more `STS2` reads: `Ok(true)`
/// at the first read with `RESETC` set, `Ok(false)` once `n` reads all had
/// it clear.
pub open spec fn resetc_poll_run<E>(t: Seq<MdioOp<E>>, i: int, phy: u8, n: nat) -> Option<
    (Result<bool, E>, int),
>
    decreases n,
{
    if n == 0 {
        Some((Ok(false), i))
    } else {
        match mmd_read_run(t, i, phy, regs::MMD_VS2, regs::MMD_REG_STS2) {
            None => None,
            Some((Err(e), j)) => Some((Err(e), j)),
            Some((Ok(v), j)) => if v & regs::STS2_RESETC != 0 {
                Some((Ok(true), j))
            } else {
                resetc_poll_run(t, j, phy, (n - 1) as nat)
            },
        }
    }
}

/// `init`, last part: `MIDVER` must read `0x0A10`, then multidrop is
/// enabled by a read-modify-write of `T1SPMACTL` setting `MDE`.
pub open spec fn lan867x_finish_run<E>(t: Seq<MdioOp<E>>, i: int, phy: u8, id: u32, chip: Chip) -> Option<
    (Result<Chip, PhyError<E>>, int),
> {
    match mmd_read_run(t, i, phy, regs::MMD_VS2, regs::MMD_REG_MIDVER) {
        None => None,
        Some((Err(e), j)) => Some((Err(PhyError::Mdio(e)), j)),
        Some((Ok(midver), j)) => if midver != regs::MIDVER_EXPECTED {
            Some((Err(PhyError::UnsupportedChip { id }), j))
        } else {
            match mmd_rmw_run(
                t,
                j,
                phy,
                regs::MMD_PMA_PMD,
                regs::MMD_REG_T1SPMACTL,
                0,
                regs::T1SPMACTL_MDE,
            ) {
                None => None,
                Some((Err(e), k)) => Some((Err(PhyError::Mdio(e)), k)),
                Some((Ok(_), k)) => Some((Ok(chip), k)),
            }
        },
    }
}

/// `init`, identification: PHY ID family check, then the package from
/// `STRAP_CTRL0`.
pub open spec fn lan867x_identify_run<E>(t: Seq<MdioOp<E>>, i: int, phy: u8) -> Option<
    (Result<Chip, PhyError<E>>, int),
> {
    match read_phy_id_run(t, i, phy) {
        None => None,
        Some((Err(e), j)) => Some((Err(PhyError::Mdio(e)), j)),
        Some((Ok(id), j)) => if !is_lan867x_id(id) {
            Some((Err(PhyError::UnsupportedChip { id }), j))
        } else {
            match read_at(t, j, phy, regs::REG_STRAP_CTRL0) {
                None => None,
                Some(Err(e)) => Some((Err(PhyError::Mdio(e)), j + 1)),
                Some(Ok(strap)) => match chip_from_strap(strap) {
                    None => Some((Err(PhyError::UnsupportedPackage { strap: strap as u32 }), j + 1)),
                    Some(chip) => lan867x_finish_run(t, j + 1, phy, id, chip),
                },
            }
        },
    }
}

/// `init` after the soft reset: the `STS2.RESETC` handshake (timing out
/// after [`RESETC_ATTEMPTS`] reads), then identification.
pub open spec fn lan867x_handshake_run<E>(t: Seq<MdioOp<E>>, i: int, phy: u8) -> Option<
    (Result<Chip, PhyError<E>>, int),
> {
    match resetc_poll_run(t, i, phy, RESETC_ATTEMPTS as nat) {
        None => None,
        Some((Err(e), j)) => Some((Err(PhyError::Mdio(e)), j)),
        Some((Ok(done), j)) => if !done {
            Some((Err(PhyError::ResetTimeout), j))
        } else {
            lan867x_identify_run(t, j, phy)
        },
    }
}

/// [`PhyLan867x::init`](crate::PhyDriver::init): soft reset, reset-complete
/// handshake, identification, `MIDVER` probe, multidrop enable. `Ok(chip)`
/// names the package found.
pub open spec fn lan867x_init_run<E>(t: Seq<MdioOp<E>>, i: int, phy: u8) -> Option<
    (Result<Chip, PhyError<E>>, int),
> {
    match soft_reset_run(t, i, phy, SOFT_RESET_ATTEMPTS) {
        None => None,
        Some((Err(e), j)) => Some((Err(PhyError::Mdio(e)), j)),
        Some((Ok(cleared), j)) => if !cleared {
            Some((Err(PhyError::ResetTimeout), j))
        } else {
            lan867x_handshake_run(t, j, phy)
        },
    }
}

/// [`PhyLan867x::poll_link`](crate::PhyDriver::poll_link) for a driver in
/// state (`chip`, `plca_id`): no link before a successful `init`; without
/// PLCA the bus is always there, with no MDIO traffic; with PLCA the link
/// is `PLCA_STS.PST`.
pub open spec fn lan867x_poll_link_run<E>(
    t: Seq<MdioOp<E>>,
    i: int,
    phy: u8,
    chip: Option<Chip>,
    plca_id: Option<u8>,
) -> Option<(Result<Option<LinkState>, PhyError<E>>, int)> {
    if chip is None {
        Some((Ok(None), i))
    } else if plca_id is None {
        Some((Ok(Some(t1s_link())), i))
    } else {
        match mmd_read_run(t, i, phy, regs::MMD_VS2, regs::MMD_REG_PLCA_STS) {
            None => None,
            Some((Err(e), j)) => Some((Err(PhyError::Mdio(e)), j)),
            Some((Ok(sts), j)) => Some(
                (
                    Ok(
                        if sts & regs::PLCA_STS_PST != 0 {
                            Some(t1s_link())
                        } else {
                            None
                        },
                    ),
                    j,
                ),
            ),
        }
    }
}

/// [`PhyLan867x::configure_plca`]: reject an invalid configuration with no
/// bus traffic; otherwise write `PLCA_CTRL1`, then `PLCA_BURST`, then set
/// `PLCA_CTRL0.EN` by read-modify-write.
pub open spec fn configure_plca_run<E>(t: Seq<MdioOp<E>>, i: int, phy: u8, config: PlcaConfig) -> Option<
    (Result<(), PlcaError<E>>, int),
> {
    if !plca_config_valid(config) {
        Some((Err(PlcaError::InvalidConfig), i))
    } else {
        match mmd_write_run(
            t,
            i,
            phy,
            regs::MMD_VS2,
            regs::MMD_REG_PLCA_CTRL1,
            plca_ctrl1_value(config),
        ) {
            None => None,
            Some((Err(e), j)) => Some((Err(PlcaError::Mdio(e)), j)),
            Some((Ok(_), j)) => match mmd_write_run(
                t,
                j,
                phy,
                regs::MMD_VS2,
                regs::MMD_REG_PLCA_BURST,
                plca_burst_value(config),
            ) {
                None => None,
                Some((Err(e), k)) => Some((Err(PlcaError::Mdio(e)), k)),
                Some((Ok(_), k)) => with_plca_error(
                    mmd_rmw_run(
                        t,
                        k,
                        phy,
                        regs::MMD_VS2,
                        regs::MMD_REG_PLCA_CTRL0,
                        0,
                        regs::PLCA_CTRL0_EN,
                    ),
                ),
            },
        }
    }
}

/// [`PhyLan867x::disable_plca`]: clear `PLCA_CTRL0.EN` by
/// read-modify-write.
pub open spec fn disable_plca_run<E>(t: Seq<MdioOp<E>>, i: int, phy: u8) -> Option<
    (Result<(), PlcaError<E>>, int),
> {
    with_plca_error(
        mmd_rmw_run(t, i, phy, regs::MMD_VS2, regs::MMD_REG_PLCA_CTRL0, regs::PLCA_CTRL0_EN, 0),
    )
}

/// [`PhyLan867x::plca_status`]: read `PLCA_CTRL0`, `PLCA_CTRL1`,
/// `PLCA_STS`.
pub open spec fn plca_status_run<E>(t: Seq<MdioOp<E>>, i: int, phy: u8) -> Option<
    (Result<PlcaStatus, PlcaError<E>>, int),
> {
    match mmd_read_run(t, i, phy, regs::MMD_VS2, regs::MMD_REG_PLCA_CTRL0) {
        None => None,
        Some((Err(e), j)) => Some((Err(PlcaError::Mdio(e)), j)),
        Some((Ok(ctrl0), j)) => match mmd_read_run(t, j, phy, regs::MMD_VS2, regs::MMD_REG_PLCA_CTRL1) {
            None => None,
            Some((Err(e), k)) => Some((Err(PlcaError::Mdio(e)), k)),
            Some((Ok(ctrl1), k)) => match mmd_read_run(t, k, phy, regs::MMD_VS2, regs::MMD_REG_PLCA_STS) {
                None => None,
                Some((Err(e), l)) => Some((Err(PlcaError::Mdio(e)), l)),
                Some((Ok(sts), l)) => Some((Ok(plca_status_from(ctrl0, ctrl1, sts)), l)),
            },
        },
    }
}

// ── Runs survive extension of the transcript ───────────────────────────

/// A reset-complete handshake found in a transcript is unchanged when the
/// transcript grows.
proof fn lemma_resetc_poll_run_extends<E>(
    t: Seq<MdioOp<E>>,
    t2: Seq<MdioOp<E>>,
    i: int,
    phy: u8,
    n: nat,
)
    requires
        extends(t2, t),
        resetc_poll_run(t, i, phy, n) is Some,
    ensures
        resetc_poll_run(t2, i, phy, n) == resetc_poll_run(t, i, phy, n),
    decreases n,
{
    if n > 0 {
        mmd::lemma_mmd_read_run_extends(t, t2, i, phy, regs::MMD_VS2, regs::MMD_REG_STS2);
        if let Some((Ok(v), j)) = mmd_read_run(t, i, phy, regs::MMD_VS2, regs::MMD_REG_STS2) {
            if v & regs::STS2_RESETC == 0 {
                lemma_resetc_poll_run_extends(t, t2, j, phy, (n - 1) as nat);
            }
        }
    }
}

/// The handshake never ends before it starts.
proof fn lemma_resetc_poll_run_advances<E>(t: Seq<MdioOp<E>>, i: int, phy: u8, n: nat)
    requires
        resetc_poll_run(t, i, phy, n) is Some,
    ensures
        resetc_poll_run(t, i, phy, n).unwrap().1 >= i,
    decreases n,
{
    if n > 0 {
        if let Some((Ok(v), j)) = mmd_read_run(t, i, phy, regs::MMD_VS2, regs::MMD_REG_STS2) {
            if v & regs::STS2_RESETC == 0 {
                lemma_resetc_poll_run_advances(t, j, phy, (n - 1) as nat);
            }
        }
    }
}

// ── Driver state over call sequences ───────────────────────────────────

/// The state a [`PhyLan867x`] keeps between calls.
pub struct Lan867xState {
    /// The package found by the last successful `init`.
    pub chip: Option<Chip>,
    /// The PLCA node ID the driver believes is configured.
    pub plca_id: Option<u8>,
}

/// What one call on a [`PhyLan867x`] did, as far as the driver's state is
/// concerned.
pub enum Lan867xEvent {
    /// `init` returned: `Some(chip)` when it succeeded, `None` otherwise.
    Init { chip: Option<Chip> },
    /// `configure_plca` with this node ID returned; `accepted` when `Ok`.
    ConfigurePlca { node_id: u8, accepted: bool },
    /// `disable_plca` returned; `done` when `Ok`.
    DisablePlca { done: bool },
    /// A call that leaves the state alone: `poll_link`, `capabilities`,
    /// `phy_id`, `plca_status`, `chip`, `plca_id`, `phy_addr`.
    Query,
}

/// The chip an `init` outcome leaves in the driver.
pub open spec fn init_outcome<E>(outcome: Result<Chip, PhyError<E>>) -> Option<Chip> {
    match outcome {
        Ok(chip) => Some(chip),
        Err(_) => None,
    }
}

/// The driver's state after one call.
pub open spec fn lan867x_step(s: Lan867xState, event: Lan867xEvent) -> Lan867xState {
    match event {
        Lan867xEvent::Init { chip } => Lan867xState { chip, plca_id: None },
        Lan867xEvent::ConfigurePlca { node_id, accepted } => if accepted {
            Lan867xState { chip: s.chip, plca_id: Some(node_id) }
        } else {
            s
        },
        Lan867xEvent::DisablePlca { done } => if done {
            Lan867xState { chip: s.chip, plca_id: None }
        } else {
            s
        },
        Lan867xEvent::Query => s,
    }
}

/// The driver's state after a sequence of calls, oldest first.
pub open spec fn lan867x_state_after(s: Lan867xState, events: Seq<Lan867xEvent>) -> Lan867xState
    decreases events.len(),
{
    if events.len() == 0 {
        s
    } else {
        lan867x_step(lan867x_state_after(s, events.drop_last()), events.last())
    }
}

/// The outcome of the most recent `init` in `events`, if there is one.
pub open spec fn last_init(events: Seq<Lan867xEvent>) -> Option<Option<Chip>>
    decreases events.len(),
{
    if events.len() == 0 {
        None
    } else {
        match events.last() {
            Lan867xEvent::Init { chip } => Some(chip),
            _ => last_init(events.drop_last()),
        }
    }
}

/// Since the most recent `init` in `events`, some `configure_plca`
/// succeeded and no `disable_plca` has succeeded after it.
pub open spec fn plca_on_since_last_init(events: Seq<Lan867xEvent>) -> bool
    decreases events.len(),
{
    if events.len() == 0 {
        false
    } else {
        match events.last() {
            Lan867xEvent::Init { .. } => false,
            Lan867xEvent::ConfigurePlca { accepted, .. } => accepted || plca_on_since_last_init(
                events.drop_last(),
            ),
            Lan867xEvent::DisablePlca { done } => !done && plca_on_since_last_init(
                events.drop_last(),
            ),
            Lan867xEvent::Query => plca_on_since_last_init(events.drop_last()),
        }
    }
}

/// Whatever calls follow, the driver's chip is the outcome of the most
/// recent `init` — the package it decoded if that `init` succeeded,
/// `None` if it failed — and the chip it started with if there was none.
pub proof fn lemma_lan867x_chip_follows_last_init(s: Lan867xState, events: Seq<Lan867xEvent>)
    ensures
        lan867x_state_after(s, events).chip == (match last_init(events) {
            Some(chip) => chip,
            None => s.chip,
        }),
    decreases events.len(),
{
    if events.len() > 0 {
        lemma_lan867x_chip_follows_last_init(s, events.drop_last());
    }
}

/// Once some `init` has run, PLCA is on in the driver exactly when a
/// `configure_plca` succeeded since the last `init` and no `disable_plca`
/// succeeded after it.
pub proof fn lemma_lan867x_plca_follows_last_init(s: Lan867xState, events: Seq<Lan867xEvent>)
    requires
        last_init(events) is Some,
    ensures
        lan867x_state_after(s, events).plca_id is Some <==> plca_on_since_last_init(events),
    decreases events.len(),
{
    if !(events.last() is Init) {
        lemma_lan867x_plca_follows_last_init(s, events.drop_last());
    }
}

/// After a successful `init`, and as long as no `configure_plca` since it
/// is left standing (each undone by a later successful `disable_plca`),
/// `poll_link` reports the 10 Mbit/s half-duplex link on any bus, with no
/// bus traffic — whatever other calls came in between.
pub proof fn lemma_lan867x_linked_after_init<E>(
    s: Lan867xState,
    events: Seq<Lan867xEvent>,
    t: Seq<MdioOp<E>>,
    i: int,
    phy: u8,
)
    requires
        last_init(events) matches Some(Some(_)),
        !plca_on_since_last_init(events),
    ensures
        ({
            let after = lan867x_state_after(s, events);
            lan867x_poll_link_run(t, i, phy, after.chip, after.plca_id) == Some(
                (Ok::<_, PhyError<E>>(Some(t1s_link())), i),
            )
        }),
{
    lemma_lan867x_chip_follows_last_init(s, events);
    lemma_lan867x_plca_follows_last_init(s, events);
}

// ── Driver ─────────────────────────────────────────────────────────────

/// LAN867x PHY driver (software-only, no reset pin).
pub struct PhyLan867x {
    addr: u8,
    /// Package found by the last successful `init`; `None` before it, and
    /// after a failed one. `poll_link` reports no link while it is `None`.
    chip: Option<Chip>,
    /// `Some(id)` once `configure_plca` has succeeded; `None` otherwise
    /// (cleared by `init` and `disable_plca`). `poll_link` consults
    /// `PLCA_STS.PST` only while it is `Some`.
    plca_id: Option<u8>,
}

impl PhyLan867x {
    /// The MDIO address the driver talks to.
    pub closed spec fn address(&self) -> u8 {
        self.addr
    }

    /// The driver's state: the package found by `init` and the PLCA node
    /// ID it configured.
    pub closed spec fn state(&self) -> Lan867xState {
        Lan867xState { chip: self.chip, plca_id: self.plca_id }
    }

    /// Create a new driver bound to the given MDIO/SMI address: no chip
    /// found yet, PLCA not configured.
    pub fn new(addr: u8) -> (r: Self)
        ensures
            r.address() == addr,
            r.state().chip is None,
            r.state().plca_id is None,
    {
        Self { addr, chip: None, plca_id: None }
    }

    /// Rebuild a driver around a PHY whose state is already known — for
    /// instance one brought up by an earlier driver instance or boot stage.
    /// `chip` and `plca_id` are taken as given: nothing is checked against
    /// the silicon, and `poll_link` trusts them as it trusts its own `init`
    /// and `configure_plca`.
    pub fn restore(addr: u8, chip: Option<Chip>, plca_id: Option<u8>) -> (r: Self)
        ensures
            r.address() == addr,
            r.state() == (Lan867xState { chip, plca_id }),
    {
        Self { addr, chip, plca_id }
    }

    /// Concrete chip discovered at `init()`. `None` until `init()` succeeds.
    pub fn chip(&self) -> (r: Option<Chip>)
        ensures
            r == self.state().chip,
    {
        self.chip
    }

    /// The PLCA node ID configured by the last successful `configure_plca`,
    /// unless `init` or `disable_plca` has succeeded since.
    pub fn plca_id(&self) -> (r: Option<u8>)
        ensures
            r == self.state().plca_id,
    {
        self.plca_id
    }

    /// Configure and enable PLCA on this node.
    ///
    /// Rejects `node_id == 0xFF` (use [`PhyLan867x::disable_plca`]) and a
    /// follower whose `node_id` is not below a non-zero `node_count`, with
    /// no bus traffic. Otherwise writes `PLCA_CTRL1` (NCNT/ID), then
    /// `PLCA_BURST` (always, so a `burst_count` of 0 clears a previous
    /// burst setting; a `burst_timer` of 0 stands for the chip default
    /// `0x80`), then sets `PLCA_CTRL0.EN` last. Not transactional: a bus
    /// error after a successful write leaves the chip partly configured,
    /// and the driver's `plca_id` unchanged.
    pub fn configure_plca<M: MdioBus>(&mut self, mdio: &mut M, config: &PlcaConfig) -> (r: Result<
        (),
        PlcaError<M::Error>,
    >)
        ensures
            extends(final(mdio).transcript(), old(mdio).transcript()),
            configure_plca_run(
                final(mdio).transcript(),
                old(mdio).transcript().len() as int,
                old(self).address(),
                *config,
            ) == Some((r, final(mdio).transcript().len() as int)),
            final(self).address() == old(self).address(),
            final(self).state().chip == old(self).state().chip,
            final(self).state().plca_id == (if r is Ok {
                Some(config.node_id)
            } else {
                old(self).state().plca_id
            }),
            final(self).state() == lan867x_step(
                old(self).state(),
                Lan867xEvent::ConfigurePlca { node_id: config.node_id, accepted: r is Ok },
            ),
    {
        if config.node_id == regs::PLCA_ID_DISABLED {
            return Err(PlcaError::InvalidConfig);
        }
        if config.node_count != 0 && config.node_id >= config.node_count {
            return Err(PlcaError::InvalidConfig);
        }
        let ghost t0 = mdio.transcript();
        let ghost i0 = t0.len() as int;
        let addr = self.addr;
        // PLCA_CTRL1 = NCNT[15:8] | ID[7:0]
        let ctrl1 = ((config.node_count as u16) << regs::PLCA_CTRL1_NCNT_SHIFT)
            | (config.node_id as u16);
        match mmd::mmd_write(mdio, addr, regs::MMD_VS2, regs::MMD_REG_PLCA_CTRL1, ctrl1) {
            Ok(()) => {},
            Err(e) => {
                return Err(PlcaError::Mdio(e));
            },
        }
        let ghost t1 = mdio.transcript();
        let ghost i1 = t1.len() as int;
        // Always program PLCA_BURST: MAXBC = 0 explicitly disables bursting.
        let btmr = if config.burst_timer == 0 {
            0x80u16
        } else {
            config.burst_timer as u16
        };
        let burst = ((config.burst_count as u16) << 8u16) | btmr;
        let res = mmd::mmd_write(mdio, addr, regs::MMD_VS2, regs::MMD_REG_PLCA_BURST, burst);
        let ghost t2 = mdio.transcript();
        proof {
            mmd::lemma_mmd_write_run_extends(
                t1,
                t2,
                i0,
                addr,
                regs::MMD_VS2,
                regs::MMD_REG_PLCA_CTRL1,
                ctrl1,
            );
        }
        match res {
            Ok(()) => {},
            Err(e) => {
                return Err(PlcaError::Mdio(e));
            },
        }
        // Flip the enable bit last, after CTRL1 is in place.
        let res = mmd::mmd_rmw(
            mdio,
            addr,
            regs::MMD_VS2,
            regs::MMD_REG_PLCA_CTRL0,
            0,
            regs::PLCA_CTRL0_EN,
        );
        proof {
            mmd::lemma_mmd_write_run_extends(
                t2,
                mdio.transcript(),
                i0,
                addr,
                regs::MMD_VS2,
                regs::MMD_REG_PLCA_CTRL1,
                ctrl1,
            );
            mmd::lemma_mmd_write_run_extends(
                t2,
                mdio.transcript(),
                i1,
                addr,
                regs::MMD_VS2,
                regs::MMD_REG_PLCA_BURST,
                burst,
            );
        }
        match res {
            Ok(()) => {},
            Err(e) => {
                return Err(PlcaError::Mdio(e));
            },
        }
        self.plca_id = Some(config.node_id);
        Ok(())
    }

    /// Disable PLCA — the chip falls back to CSMA/CD on the segment.
    pub fn disable_plca<M: MdioBus>(&mut self, mdio: &mut M) -> (r: Result<
        (),
        PlcaError<M::Error>,
    >)
        ensures
            extends(final(mdio).transcript(), old(mdio).transcript()),
            disable_plca_run(
                final(mdio).transcript(),
                old(mdio).transcript().len() as int,
                old(self).address(),
            ) == Some((r, final(mdio).transcript().len() as int)),
            final(self).address() == old(self).address(),
            final(self).state().chip == old(self).state().chip,
            final(self).state().plca_id == (if r is Ok {
                None
            } else {
                old(self).state().plca_id
            }),
            final(self).state() == lan867x_step(
                old(self).state(),
                Lan867xEvent::DisablePlca { done: r is Ok },
            ),
    {
        match mmd::mmd_rmw(
            mdio,
            self.addr,
            regs::MMD_VS2,
            regs::MMD_REG_PLCA_CTRL0,
            regs::PLCA_CTRL0_EN,
            0,
        ) {
            Ok(()) => {},
            Err(e) => {
                return Err(PlcaError::Mdio(e));
            },
        }
        self.plca_id = None;
        Ok(())
    }

    /// Snapshot the chip's PLCA registers. The result reflects what the
    /// silicon reports, whether or not this driver configured PLCA.
    pub fn plca_status<M: MdioBus>(&self, mdio: &mut M) -> (r: Result<
        PlcaStatus,
        PlcaError<M::Error>,
    >)
        ensures
            extends(final(mdio).transcript(), old(mdio).transcript()),
            plca_status_run(
                final(mdio).transcript(),
                old(mdio).transcript().len() as int,
                self.address(),
            ) == Some((r, final(mdio).transcript().len() as int)),
    {
        let ghost t0 = mdio.transcript();
        let ghost i0 = t0.len() as int;
        let addr = self.addr;
        let ctrl0 = match mmd::mmd_read(mdio, addr, regs::MMD_VS2, regs::MMD_REG_PLCA_CTRL0) {
            Ok(v) => v,
            Err(e) => {
                return Err(PlcaError::Mdio(e));
            },
        };
        let ghost t1 = mdio.transcript();
        let ghost i1 = t1.len() as int;
        let res = mmd::mmd_read(mdio, addr, regs::MMD_VS2, regs::MMD_REG_PLCA_CTRL1);
        let ghost t2 = mdio.transcript();
        proof {
            mmd::lemma_mmd_read_run_extends(
                t1,
                t2,
                i0,
                addr,
                regs::MMD_VS2,
                regs::MMD_REG_PLCA_CTRL0,
            );
        }
        let ctrl1 = match res {
            Ok(v) => v,
            Err(e) => {
                return Err(PlcaError::Mdio(e));
            },
        };
        let res = mmd::mmd_read(mdio, addr, regs::MMD_VS2, regs::MMD_REG_PLCA_STS);
        proof {
            mmd::lemma_mmd_read_run_extends(
                t2,
                mdio.transcript(),
                i0,
                addr,
                regs::MMD_VS2,
                regs::MMD_REG_PLCA_CTRL0,
            );
            mmd::lemma_mmd_read_run_extends(
                t2,
                mdio.transcript(),
                i1,
                addr,
                regs::MMD_VS2,
                regs::MMD_REG_PLCA_CTRL1,
            );
        }
        let sts = match res {
            Ok(v) => v,
            Err(e) => {
                return Err(PlcaError::Mdio(e));
            },
        };
        let id = (ctrl1 & regs::PLCA_CTRL1_ID_MASK) as u8;
        Ok(
            PlcaStatus {
                enabled: ctrl0 & regs::PLCA_CTRL0_EN != 0,
                node_id: id,
                is_coordinator: id == regs::PLCA_ID_COORDINATOR,
                stable: sts & regs::PLCA_STS_PST != 0,
            },
        )
    }
}

// ── Initialisation steps ───────────────────────────────────────────────

/// Reset-complete handshake: poll `STS2` until `RESETC` is set (the read
/// also clears it and releases `IRQ_N`). `Ok(false)` on timeout.
fn wait_reset_complete<M: MdioBus>(mdio: &mut M, addr: u8) -> (r: Result<bool, M::Error>)
    ensures
        extends(final(mdio).transcript(), old(mdio).transcript()),
        resetc_poll_run(
            final(mdio).transcript(),
            old(mdio).transcript().len() as int,
            addr,
            RESETC_ATTEMPTS as nat,
        ) == Some((r, final(mdio).transcript().len() as int)),
{
    let ghost t0 = mdio.transcript();
    let ghost start = t0.len() as int;
    let mut attempt: u32 = 0;
    while attempt < RESETC_ATTEMPTS
        invariant
            t0 == old(mdio).transcript(),
            start == t0.len(),
            extends(mdio.transcript(), t0),
            attempt <= RESETC_ATTEMPTS,
            forall|tt: Seq<MdioOp<M::Error>>|
                extends(tt, mdio.transcript()) ==> #[trigger] resetc_poll_run(
                    tt,
                    start,
                    addr,
                    RESETC_ATTEMPTS as nat,
                ) == resetc_poll_run(
                    tt,
                    mdio.transcript().len() as int,
                    addr,
                    (RESETC_ATTEMPTS - attempt) as nat,
                ),
        decreases RESETC_ATTEMPTS - attempt,
    {
        let ghost before = mdio.transcript();
        let ghost here = before.len() as int;
        let res = mmd::mmd_read(mdio, addr, regs::MMD_VS2, regs::MMD_REG_STS2);
        let ghost after = mdio.transcript();
        proof {
            crate::mdio::lemma_extends_trans(t0, before, after);
            assert(extends(after, after));
            assert(resetc_poll_run(after, start, addr, RESETC_ATTEMPTS as nat) == resetc_poll_run(
                after,
                here,
                addr,
                (RESETC_ATTEMPTS - attempt) as nat,
            ));
        }
        match res {
            Err(e) => {
                return Err(e);
            },
            Ok(sts2) => {
                if sts2 & regs::STS2_RESETC != 0 {
                    return Ok(true);
                }
            },
        }
        proof {
            assert forall|tt: Seq<MdioOp<M::Error>>| extends(tt, after) implies #[trigger]
                resetc_poll_run(tt, start, addr, RESETC_ATTEMPTS as nat) == resetc_poll_run(
                tt,
                after.len() as int,
                addr,
                (RESETC_ATTEMPTS - (attempt + 1)) as nat,
            ) by {
                crate::mdio::lemma_extends_trans(before, after, tt);
                mmd::lemma_mmd_read_run_extends(
                    after,
                    tt,
                    here,
                    addr,
                    regs::MMD_VS2,
                    regs::MMD_REG_STS2,
                );
            }
        }
        attempt = attempt + 1;
    }
    proof {
        assert(extends(mdio.transcript(), mdio.transcript()));
    }
    Ok(false)
}

/// `init`, last part: `MIDVER` probe and multidrop enable.
fn finish_init<M: MdioBus>(mdio: &mut M, addr: u8, id: u32, chip: Chip) -> (r: Result<
    Chip,
    PhyError<M::Error>,
>)
    ensures
        extends(final(mdio).transcript(), old(mdio).transcript()),
        lan867x_finish_run(
            final(mdio).transcript(),
            old(mdio).transcript().len() as int,
            addr,
            id,
            chip,
        ) == Some((r, final(mdio).transcript().len() as int)),
{
    let ghost t0 = mdio.transcript();
    let ghost i0 = t0.len() as int;
    // Sanity-probe the OPEN Alliance map identifier in MMD-31.
    let midver = match mmd::mmd_read(mdio, addr, regs::MMD_VS2, regs::MMD_REG_MIDVER) {
        Ok(v) => v,
        Err(e) => {
            return Err(PhyError::Mdio(e));
        },
    };
    if midver != regs::MIDVER_EXPECTED {
        return Err(PhyError::UnsupportedChip { id });
    }
    let ghost t1 = mdio.transcript();
    // Multidrop enable, by read-modify-write to keep the other bits.
    let res = mmd::mmd_rmw(
        mdio,
        addr,
        regs::MMD_PMA_PMD,
        regs::MMD_REG_T1SPMACTL,
        0,
        regs::T1SPMACTL_MDE,
    );
    proof {
        mmd::lemma_mmd_read_run_extends(
            t1,
            mdio.transcript(),
            i0,
            addr,
            regs::MMD_VS2,
            regs::MMD_REG_MIDVER,
        );
    }
    match res {
        Ok(()) => Ok(chip),
        Err(e) => Err(PhyError::Mdio(e)),
    }
}

/// `init`, identification: PHY ID family check, then the package.
fn identify<M: MdioBus>(mdio: &mut M, addr: u8) -> (r: Result<Chip, PhyError<M::Error>>)
    ensures
        extends(final(mdio).transcript(), old(mdio).transcript()),
        lan867x_identify_run(final(mdio).transcript(), old(mdio).transcript().len() as int, addr)
            == Some((r, final(mdio).transcript().len() as int)),
{
    let ghost t0 = mdio.transcript();
    let ghost i0 = t0.len() as int;
    // The silicon-revision nibble is masked out: every revision shipped
    // to date is supported.
    let id = match ieee802_3::read_phy_id(mdio, addr) {
        Ok(id) => id,
        Err(e) => {
            return Err(PhyError::Mdio(e));
        },
    };
    if id & regs::PHY_OUI_MODEL_MASK != regs::PHY_OUI_MODEL_LAN867X {
        return Err(PhyError::UnsupportedChip { id });
    }
    let ghost t1 = mdio.transcript();
    let ghost i1 = t1.len() as int;
    // The package strap is latched at hardware reset and survives the soft
    // reset.
    let res = mdio.read(addr, regs::REG_STRAP_CTRL0);
    let ghost t2 = mdio.transcript();
    proof {
        ieee802_3::lemma_read_phy_id_run_extends(t1, t2, i0, addr);
    }
    let strap = match res {
        Ok(v) => v,
        Err(e) => {
            return Err(PhyError::Mdio(e));
        },
    };
    let pkgtyp = strap & regs::STRAP_CTRL0_PKGTYP_MASK;
    let chip = if pkgtyp == regs::STRAP_CTRL0_PKGTYP_LAN8670 {
        Chip::Lan8670
    } else if pkgtyp == regs::STRAP_CTRL0_PKGTYP_LAN8671 {
        Chip::Lan8671
    } else if pkgtyp == regs::STRAP_CTRL0_PKGTYP_LAN8672 {
        Chip::Lan8672
    } else {
        // The family matched; only the package strap is unknown.
        return Err(PhyError::UnsupportedPackage { strap: strap as u32 });
    };
    let r = finish_init(mdio, addr, id, chip);
    proof {
        ieee802_3::lemma_read_phy_id_run_extends(t2, mdio.transcript(), i0, addr);
        assert(mdio.transcript()[i1] == t2[i1]);
    }
    r
}

/// `init` after the soft reset: handshake, then identification.
fn handshake<M: MdioBus>(mdio: &mut M, addr: u8) -> (r: Result<Chip, PhyError<M::Error>>)
    ensures
        extends(final(mdio).transcript(), old(mdio).transcript()),
        lan867x_handshake_run(final(mdio).transcript(), old(mdio).transcript().len() as int, addr)
            == Some((r, final(mdio).transcript().len() as int)),
{
    let ghost t0 = mdio.transcript();
    let ghost i0 = t0.len() as int;
    let done = match wait_reset_complete(mdio, addr) {
        Ok(d) => d,
        Err(e) => {
            return Err(PhyError::Mdio(e));
        },
    };
    if !done {
        return Err(PhyError::ResetTimeout);
    }
    let ghost t1 = mdio.transcript();
    let r = identify(mdio, addr);
    proof {
        lemma_resetc_poll_run_extends(t1, mdio.transcript(), i0, addr, RESETC_ATTEMPTS as nat);
    }
    r
}

/// The whole initialisation; `Ok(chip)` names the package found.
fn bring_up<M: MdioBus>(mdio: &mut M, addr: u8) -> (r: Result<Chip, PhyError<M::Error>>)
    ensures
        extends(final(mdio).transcript(), old(mdio).transcript()),
        lan867x_init_run(final(mdio).transcript(), old(mdio).transcript().len() as int, addr)
            == Some((r, final(mdio).transcript().len() as int)),
{
    let ghost t0 = mdio.transcript();
    let ghost i0 = t0.len() as int;
    let cleared = match ieee802_3::soft_reset(mdio, addr, SOFT_RESET_ATTEMPTS) {
        Ok(c) => c,
        Err(e) => {
            return Err(PhyError::Mdio(e));
        },
    };
    if !cleared {
        return Err(PhyError::ResetTimeout);
    }
    let ghost t1 = mdio.transcript();
    let r = handshake(mdio, addr);
    proof {
        ieee802_3::lemma_soft_reset_run_extends(
            t1,
            mdio.transcript(),
            i0,
            addr,
            SOFT_RESET_ATTEMPTS,
        );
    }
    r
}

impl PhyDriver for PhyLan867x {
    fn phy_addr(&self) -> (r: u8)
        ensures
            r == self.address(),
    {
        self.addr
    }

    /// Soft reset, `STS2.RESETC` handshake, PHY ID check, package from
    /// `STRAP_CTRL0.PKGTYP`, `MIDVER` probe, multidrop enable.
    ///
    /// The driver's PLCA state is dropped (the soft reset turns PLCA off),
    /// and `chip` is set only when every step succeeded: after a failure it
    /// is `None`, so `poll_link` reports no link.
    fn init<M: MdioBus>(&mut self, mdio: &mut M) -> (r: Result<(), PhyError<M::Error>>)
        ensures
            extends(final(mdio).transcript(), old(mdio).transcript()),
            final(self).address() == old(self).address(),
            final(self).state().plca_id is None,
            ({
                let run = lan867x_init_run(
                    final(mdio).transcript(),
                    old(mdio).transcript().len() as int,
                    old(self).address(),
                );
                &&& run is Some
                &&& run.unwrap().1 == final(mdio).transcript().len()
                &&& final(self).state() == lan867x_step(
                    old(self).state(),
                    Lan867xEvent::Init { chip: init_outcome(run.unwrap().0) },
                )
                &&& match run.unwrap().0 {
                    Ok(chip) => r is Ok && final(self).state().chip == Some(chip),
                    Err(e) => r == Err::<(), PhyError<M::Error>>(e) && final(self).state().chip
                        is None,
                }
            }),
    {
        self.plca_id = None;
        self.chip = None;
        match bring_up(mdio, self.addr) {
            Ok(chip) => {
                self.chip = Some(chip);
                Ok(())
            },
            Err(e) => Err(e),
        }
    }

    /// Before a successful `init`: `None`, no bus traffic. PLCA off: the
    /// CSMA/CD bus is always there — `Some(10 Mbit/s, half duplex)`, no bus
    /// traffic. PLCA on: linked exactly when `PLCA_STS.PST` is set.
    fn poll_link<M: MdioBus>(&mut self, mdio: &mut M) -> (r: Result<
        Option<LinkState>,
        PhyError<M::Error>,
    >)
        ensures
            extends(final(mdio).transcript(), old(mdio).transcript()),
            lan867x_poll_link_run(
                final(mdio).transcript(),
                old(mdio).transcript().len() as int,
                old(self).address(),
                old(self).state().chip,
                old(self).state().plca_id,
            ) == Some((r, final(mdio).transcript().len() as int)),
            *final(self) == *old(self),
    {
        if self.chip.is_none() {
            return Ok(None);
        }
        if self.plca_id.is_none() {
            return Ok(Some(LinkState::up(Speed::_10M, Duplex::Half)));
        }
        match mmd::mmd_read(mdio, self.addr, regs::MMD_VS2, regs::MMD_REG_PLCA_STS) {
            Ok(sts) => {
                if sts & regs::PLCA_STS_PST != 0 {
                    Ok(Some(LinkState::up(Speed::_10M, Duplex::Half)))
                } else {
                    Ok(None)
                }
            },
            Err(e) => Err(PhyError::Mdio(e)),
        }
    }

    /// The BMSR capability bits (only 10BASE-T half duplex on this chip).
    fn capabilities<M: MdioBus>(&self, mdio: &mut M) -> (r: Result<
        PhyCapabilities,
        PhyError<M::Error>,
    >)
        ensures
            extends(final(mdio).transcript(), old(mdio).transcript()),
            with_phy_error(
                read_capabilities_run(
                    final(mdio).transcript(),
                    old(mdio).transcript().len() as int,
                    self.address(),
                ),
            ) == Some((r, final(mdio).transcript().len() as int)),
    {
        match ieee802_3::read_capabilities(mdio, self.addr) {
            Ok(c) => Ok(c),
            Err(e) => Err(PhyError::Mdio(e)),
        }
    }

    /// `(PHY_ID0 << 16) | PHY_ID1`.
    fn phy_id<M: MdioBus>(&self, mdio: &mut M) -> (r: Result<u32, PhyError<M::Error>>)
        ensures
            extends(final(mdio).transcript(), old(mdio).transcript()),
            with_phy_error(
                read_phy_id_run(
                    final(mdio).transcript(),
                    old(mdio).transcript().len() as int,
                    self.address(),
                ),
            ) == Some((r, final(mdio).transcript().len() as int)),
    {
        match ieee802_3::read_phy_id(mdio, self.addr) {
            Ok(id) => Ok(id),
            Err(e) => Err(PhyError::Mdio(e)),
        }
    }
}

} // verus!

verus! {

// ── Laws ───────────────────────────────────────────────────────────────

/// `configure_plca` refuses a configuration exactly when it is invalid,
/// and then issues no bus traffic; a valid one is never refused as
/// invalid.
pub proof fn lemma_configure_plca_validation<E>(
    t: Seq<MdioOp<E>>,
    i: int,
    phy: u8,
    config: PlcaConfig,
)
    ensures
        (configure_plca_run(t, i, phy, config) == Some(
            (Err::<(), PlcaError<E>>(PlcaError::InvalidConfig), i),
        )) <==> !plca_config_valid(config),
        plca_config_valid(config) ==> !(configure_plca_run(t, i, phy, config) matches Some(
            (Err(PlcaError::InvalidConfig), _),
        )),
{
}

/// A successful `configure_plca` programs, in this order, `PLCA_CTRL1` =
/// `NCNT << 8 | ID`, then `PLCA_BURST`, and only then sets `PLCA_CTRL0.EN`
/// with its last write — so the chip never runs PLCA with a stale ID or
/// node count.
pub proof fn lemma_configure_plca_order<E>(t: Seq<MdioOp<E>>, i: int, phy: u8, config: PlcaConfig)
    requires
        configure_plca_run(t, i, phy, config) matches Some((Ok(_), _)),
    ensures
        configure_plca_run(t, i, phy, config).unwrap().1 == i + 16,
        write_at(t, i + 1, phy, regs::REG_MMDAD, regs::MMD_REG_PLCA_CTRL1) is Some,
        write_at(t, i + 3, phy, regs::REG_MMDAD, plca_ctrl1_value(config)) is Some,
        write_at(t, i + 5, phy, regs::REG_MMDAD, regs::MMD_REG_PLCA_BURST) is Some,
        write_at(t, i + 7, phy, regs::REG_MMDAD, plca_burst_value(config)) is Some,
        write_at(t, i + 13, phy, regs::REG_MMDAD, regs::MMD_REG_PLCA_CTRL0) is Some,
        t[i + 15] matches MdioOp::Write { phy: p, reg, value, result: _ } && p == phy && reg
            == regs::REG_MMDAD && value & regs::PLCA_CTRL0_EN != 0,
{
    let k = i + 8;
    if let Some((Ok(current), l)) = mmd_read_run(
        t,
        k,
        phy,
        regs::MMD_VS2,
        regs::MMD_REG_PLCA_CTRL0,
    ) {
        mmd::lemma_rmw_value_bits(current, 0, regs::PLCA_CTRL0_EN);
    }
}

/// `PLCA_CTRL1` is `node_count * 256 + node_id`, and `PLCA_BURST` is
/// `burst_count * 256 + timer`, where a zero timer is replaced by `0x80`:
/// a `burst_count` of 0 always clears `MAXBC`.
pub proof fn lemma_plca_register_values(config: PlcaConfig)
    ensures
        plca_ctrl1_value(config) == config.node_count as int * 256 + config.node_id as int,
        plca_burst_value(config) == config.burst_count as int * 256 + plca_burst_timer(config),
        plca_burst_value(config) & 0xFF00u16 == (config.burst_count as u16) << 8u16,
        plca_burst_timer(config) == (if config.burst_timer == 0 {
            0x80
        } else {
            config.burst_timer as int
        }),
{
    let n = config.node_count as u16;
    let id = config.node_id as u16;
    let b = config.burst_count as u16;
    let tm = plca_burst_timer(config);
    assert((n << 8u16) | id == n * 256 + id) by (bit_vector)
        requires
            n < 256,
            id < 256,
    ;
    assert((b << 8u16) | tm == b * 256 + tm && ((b << 8u16) | tm) & 0xFF00u16 == b << 8u16)
        by (bit_vector)
        requires
            b < 256,
            tm < 256,
    ;
}

/// The PLCA status names the low byte of `PLCA_CTRL1` as the node ID, and
/// reports a coordinator exactly when that ID is 0.
pub proof fn lemma_plca_status_from(ctrl0: u16, ctrl1: u16, sts: u16)
    ensures
        plca_status_from(ctrl0, ctrl1, sts).node_id == ctrl1 % 256,
        plca_status_from(ctrl0, ctrl1, sts).is_coordinator <==> plca_status_from(
            ctrl0,
            ctrl1,
            sts,
        ).node_id == 0,
{
    assert(ctrl1 & 0x00FFu16 == ctrl1 % 256) by (bit_vector);
}

/// What `poll_link` reports in each driver state: no link and no bus
/// traffic before a successful `init` (or after a failed one); the
/// always-there 10 Mbit/s half-duplex link and no bus traffic when PLCA is
/// off; with PLCA on, a link exactly when `PLCA_STS.PST` is set.
pub proof fn lemma_lan867x_poll_link_modes<E>(
    t: Seq<MdioOp<E>>,
    i: int,
    phy: u8,
    chip: Option<Chip>,
    plca_id: Option<u8>,
)
    ensures
        chip is None ==> lan867x_poll_link_run(t, i, phy, chip, plca_id) == Some(
            (Ok::<_, PhyError<E>>(None::<LinkState>), i),
        ),
        chip is Some && plca_id is None ==> lan867x_poll_link_run(t, i, phy, chip, plca_id)
            == Some((Ok::<_, PhyError<E>>(Some(link_up_state(Speed::_10M, Duplex::Half))), i)),
        chip is Some && plca_id is Some ==> (lan867x_poll_link_run(t, i, phy, chip, plca_id)
            matches Some((Ok(Some(_)), j)) ==> mmd_read_run(
            t,
            i,
            phy,
            regs::MMD_VS2,
            regs::MMD_REG_PLCA_STS,
        ) matches Some((Ok(sts), k)) && k == j && sts & regs::PLCA_STS_PST != 0),
{
}

/// A successful `init` ends with multidrop enabled: its last transaction
/// writes `T1SPMACTL` (selected just before) with `MDE` set and the other
/// bits as read; and the chip it reports is the one `STRAP_CTRL0` names.
pub proof fn lemma_lan867x_init_enables_multidrop<E>(t: Seq<MdioOp<E>>, i: int, phy: u8)
    requires
        lan867x_init_run(t, i, phy) matches Some((Ok(_), _)),
    ensures
        ({
            let (r, j) = lan867x_init_run(t, i, phy).unwrap();
            &&& write_at(t, j - 3, phy, regs::REG_MMDAD, regs::MMD_REG_T1SPMACTL) is Some
            &&& t[j - 1] matches MdioOp::Write { phy: p, reg, value, result: _ } && p == phy
                && reg == regs::REG_MMDAD && value & regs::T1SPMACTL_MDE != 0
            &&& exists|k: int|
                i <= k < j && (#[trigger] read_at(t, k, phy, regs::REG_STRAP_CTRL0) matches Some(
                    Ok(strap),
                ) && chip_from_strap(strap) == Some(r->Ok_0))
        }),
{
    let (_, j0) = soft_reset_run(t, i, phy, SOFT_RESET_ATTEMPTS).unwrap();
    let (_, j1) = resetc_poll_run(t, j0, phy, RESETC_ATTEMPTS as nat).unwrap();
    let (id_r, j2) = read_phy_id_run(t, j1, phy).unwrap();
    let (_, j3) = mmd_read_run(t, j2 + 1, phy, regs::MMD_VS2, regs::MMD_REG_MIDVER).unwrap();
    if let Some((Ok(current), j4)) = mmd_read_run(
        t,
        j3,
        phy,
        regs::MMD_PMA_PMD,
        regs::MMD_REG_T1SPMACTL,
    ) {
        mmd::lemma_rmw_value_bits(current, 0, regs::T1SPMACTL_MDE);
    }
    ieee802_3::lemma_reset_poll_outcome(t, i + 1, phy, SOFT_RESET_ATTEMPTS as nat);
    lemma_resetc_poll_run_advances(t, j0, phy, RESETC_ATTEMPTS as nat);
    let (r, j) = lan867x_init_run(t, i, phy).unwrap();
    let strap = read_at(t, j2, phy, regs::REG_STRAP_CTRL0).unwrap()->Ok_0;
    assert(i <= j2 < j && (read_at(t, j2, phy, regs::REG_STRAP_CTRL0) matches Some(Ok(strap))
        && chip_from_strap(strap) == Some(r->Ok_0)));
}

} // verus!

verus! {

/// The handshake reads all go to the PHY address given.
proof fn lemma_resetc_poll_run_addressed<E>(t: Seq<MdioOp<E>>, i: int, phy: u8, n: nat)
    requires
        resetc_poll_run(t, i, phy, n) is Some,
    ensures
        addressed_to(t, i, resetc_poll_run(t, i, phy, n).unwrap().1, phy),
    decreases n,
{
    if n > 0 {
        mmd::lemma_mmd_runs_addressed(t, i, phy, regs::MMD_VS2, regs::MMD_REG_STS2, 0, 0, 0);
        if let Some((Ok(v), j)) = mmd_read_run(t, i, phy, regs::MMD_VS2, regs::MMD_REG_STS2) {
            if v & regs::STS2_RESETC == 0 {
                lemma_resetc_poll_run_addressed(t, j, phy, (n - 1) as nat);
                crate::mdio::lemma_addressed_to_join(
                    t,
                    i,
                    j,
                    resetc_poll_run(t, i, phy, n).unwrap().1,
                    phy,
                );
            }
        }
    }
}

/// Every transaction of `init`, `poll_link`, `configure_plca`,
/// `disable_plca` and `plca_status` goes to the driver's own PHY address.
pub proof fn lemma_lan867x_runs_addressed<E>(
    t: Seq<MdioOp<E>>,
    i: int,
    phy: u8,
    chip: Option<Chip>,
    plca_id: Option<u8>,
    config: PlcaConfig,
)
    ensures
        lan867x_init_run(t, i, phy) is Some ==> addressed_to(
            t,
            i,
            lan867x_init_run(t, i, phy).unwrap().1,
            phy,
        ),
        lan867x_poll_link_run(t, i, phy, chip, plca_id) is Some ==> addressed_to(
            t,
            i,
            lan867x_poll_link_run(t, i, phy, chip, plca_id).unwrap().1,
            phy,
        ),
        configure_plca_run(t, i, phy, config) is Some ==> addressed_to(
            t,
            i,
            configure_plca_run(t, i, phy, config).unwrap().1,
            phy,
        ),
        disable_plca_run(t, i, phy) is Some ==> addressed_to(
            t,
            i,
            disable_plca_run(t, i, phy).unwrap().1,
            phy,
        ),
        plca_status_run(t, i, phy) is Some ==> addressed_to(
            t,
            i,
            plca_status_run(t, i, phy).unwrap().1,
            phy,
        ),
{
    let status = crate::types::link_down_state();
    let vs2 = regs::MMD_VS2;
    // init
    ieee802_3::lemma_runs_addressed(t, i, phy, SOFT_RESET_ATTEMPTS, status);
    if let Some((Ok(true), j0)) = soft_reset_run(t, i, phy, SOFT_RESET_ATTEMPTS) {
        if resetc_poll_run(t, j0, phy, RESETC_ATTEMPTS as nat) is Some {
            lemma_resetc_poll_run_addressed(t, j0, phy, RESETC_ATTEMPTS as nat);
            let (r1, j1) = resetc_poll_run(t, j0, phy, RESETC_ATTEMPTS as nat).unwrap();
            crate::mdio::lemma_addressed_to_join(t, i, j0, j1, phy);
            if r1 == Ok::<bool, E>(true) {
                ieee802_3::lemma_runs_addressed(t, j1, phy, SOFT_RESET_ATTEMPTS, status);
                if let Some((r2, j2)) = read_phy_id_run(t, j1, phy) {
                    crate::mdio::lemma_addressed_to_join(t, i, j1, j2, phy);
                    if let Ok(id) = r2 {
                        if let Some(rs) = read_at(t, j2, phy, regs::REG_STRAP_CTRL0) {
                            assert(op_phy(t[j2]) == phy);
                            crate::mdio::lemma_addressed_to_join(t, i, j2, j2 + 1, phy);
                            mmd::lemma_mmd_runs_addressed(
                                t,
                                j2 + 1,
                                phy,
                                vs2,
                                regs::MMD_REG_MIDVER,
                                0,
                                0,
                                0,
                            );
                            if let Some((r3, j3)) = mmd_read_run(
                                t,
                                j2 + 1,
                                phy,
                                vs2,
                                regs::MMD_REG_MIDVER,
                            ) {
                                crate::mdio::lemma_addressed_to_join(t, i, j2 + 1, j3, phy);
                                mmd::lemma_mmd_runs_addressed(
                                    t,
                                    j3,
                                    phy,
                                    regs::MMD_PMA_PMD,
                                    regs::MMD_REG_T1SPMACTL,
                                    0,
                                    0,
                                    regs::T1SPMACTL_MDE,
                                );
                                if let Some((_, j4)) = mmd_rmw_run(
                                    t,
                                    j3,
                                    phy,
                                    regs::MMD_PMA_PMD,
                                    regs::MMD_REG_T1SPMACTL,
                                    0,
                                    regs::T1SPMACTL_MDE,
                                ) {
                                    crate::mdio::lemma_addressed_to_join(t, i, j3, j4, phy);
                                }
                            }
                        }
                    }
                }
            }
        }
    }
    // poll_link
    mmd::lemma_mmd_runs_addressed(t, i, phy, vs2, regs::MMD_REG_PLCA_STS, 0, 0, 0);
    // configure_plca
    mmd::lemma_mmd_runs_addressed(
        t,
        i,
        phy,
        vs2,
        regs::MMD_REG_PLCA_CTRL1,
        plca_ctrl1_value(config),
        0,
        0,
    );
    if let Some((Ok(_), k1)) = mmd_write_run(
        t,
        i,
        phy,
        vs2,
        regs::MMD_REG_PLCA_CTRL1,
        plca_ctrl1_value(config),
    ) {
        mmd::lemma_mmd_runs_addressed(
            t,
            k1,
            phy,
            vs2,
            regs::MMD_REG_PLCA_BURST,
            plca_burst_value(config),
            0,
            0,
        );
        if let Some((r2, k2)) = mmd_write_run(
            t,
            k1,
            phy,
            vs2,
            regs::MMD_REG_PLCA_BURST,
            plca_burst_value(config),
        ) {
            crate::mdio::lemma_addressed_to_join(t, i, k1, k2, phy);
            if r2 is Ok {
                mmd::lemma_mmd_runs_addressed(
                    t,
                    k2,
                    phy,
                    vs2,
                    regs::MMD_REG_PLCA_CTRL0,
                    0,
                    0,
                    regs::PLCA_CTRL0_EN,
                );
                if let Some((_, k3)) = mmd_rmw_run(
                    t,
                    k2,
                    phy,
                    vs2,
                    regs::MMD_REG_PLCA_CTRL0,
                    0,
                    regs::PLCA_CTRL0_EN,
                ) {
                    crate::mdio::lemma_addressed_to_join(t, i, k2, k3, phy);
                }
            }
        }
    }
    // disable_plca
    mmd::lemma_mmd_runs_addressed(
        t,
        i,
        phy,
        vs2,
        regs::MMD_REG_PLCA_CTRL0,
        0,
        regs::PLCA_CTRL0_EN,
        0,
    );
    // plca_status
    mmd::lemma_mmd_runs_addressed(t, i, phy, vs2, regs::MMD_REG_PLCA_CTRL0, 0, 0, 0);
    if let Some((Ok(_), l1)) = mmd_read_run(t, i, phy, vs2, regs::MMD_REG_PLCA_CTRL0) {
        mmd::lemma_mmd_runs_addressed(t, l1, phy, vs2, regs::MMD_REG_PLCA_CTRL1, 0, 0, 0);
        if let Some((r2, l2)) = mmd_read_run(t, l1, phy, vs2, regs::MMD_REG_PLCA_CTRL1) {
            crate::mdio::lemma_addressed_to_join(t, i, l1, l2, phy);
            if r2 is Ok {
                mmd::lemma_mmd_runs_addressed(t, l2, phy, vs2, regs::MMD_REG_PLCA_STS, 0, 0, 0);
                if let Some((_, l3)) = mmd_read_run(t, l2, phy, vs2, regs::MMD_REG_PLCA_STS) {
                    crate::mdio::lemma_addressed_to_join(t, i, l2, l3, phy);
                }
            }
        }
    }
}

} // verus!

verus! {

// ── Laws on what identification and the PLCA snapshot report ───────────

/// The package named by `STRAP_CTRL0` depends on `PKGTYP` (bits 6:5,
/// `0x0060`) alone: `01` is LAN8670, `10` LAN8671, `11` LAN8672, `00` none.
/// The interface-type (`MITYP`, bits 8:7) and address (`SMIADR`, bits 4:0)
/// straps never change it, so two strap values with the same `PKGTYP`
/// always name the same package.
pub proof fn lemma_chip_from_pkgtyp_only(strap: u16, other: u16)
    ensures
        chip_from_strap(strap) == (if strap & 0x0060u16 == 0x0020u16 {
            Some(Chip::Lan8670)
        } else if strap & 0x0060u16 == 0x0040u16 {
            Some(Chip::Lan8671)
        } else if strap & 0x0060u16 == 0x0060u16 {
            Some(Chip::Lan8672)
        } else {
            None
        }),
        strap & 0x0060u16 == other & 0x0060u16 ==> chip_from_strap(strap) == chip_from_strap(other),
{
}

/// On a LAN867x (PHY ID `0x0000_C56x`), once the soft reset and the
/// reset-complete handshake have succeeded, `init` reads `STRAP_CTRL0`
/// (register `0x12`) and refuses the package with
/// `UnsupportedPackage { strap }` exactly when `PKGTYP` (bits 6:5) is `00`.
/// Otherwise it goes on to the `MIDVER` probe and multidrop set-up with
/// the package `PKGTYP` names — whatever the `MITYP` and `SMIADR` straps
/// say — and a successful `init` reports that package.
pub proof fn lemma_lan867x_init_package_from_pkgtyp<E>(
    t: Seq<MdioOp<E>>,
    i: int,
    phy: u8,
    j0: int,
    j1: int,
    id: u32,
    j2: int,
    strap: u16,
)
    requires
        soft_reset_run(t, i, phy, SOFT_RESET_ATTEMPTS) == Some((Ok::<bool, E>(true), j0)),
        resetc_poll_run(t, j0, phy, RESETC_ATTEMPTS as nat) == Some((Ok::<bool, E>(true), j1)),
        read_phy_id_run(t, j1, phy) == Some((Ok::<u32, E>(id), j2)),
        id & 0xFFFF_FFF0u32 == 0x0000_C560u32,
        read_at(t, j2, phy, 0x12u8) == Some(Ok::<u16, E>(strap)),
    ensures
        ({
            let chip = if strap & 0x0060u16 == 0x0020u16 {
                Chip::Lan8670
            } else if strap & 0x0060u16 == 0x0040u16 {
                Chip::Lan8671
            } else {
                Chip::Lan8672
            };
            &&& (lan867x_init_run(t, i, phy) == Some(
                (
                    Err::<Chip, PhyError<E>>(PhyError::UnsupportedPackage { strap: strap as u32 }),
                    j2 + 1,
                ),
            )) <==> strap & 0x0060u16 == 0
            &&& strap & 0x0060u16 != 0 ==> lan867x_init_run(t, i, phy) == lan867x_finish_run(
                t,
                j2 + 1,
                phy,
                id,
                chip,
            )
            &&& lan867x_init_run(t, i, phy) matches Some((Ok(c), _)) ==> c == chip
        }),
{
    let chip = if strap & 0x0060u16 == 0x0020u16 {
        Chip::Lan8670
    } else if strap & 0x0060u16 == 0x0040u16 {
        Chip::Lan8671
    } else {
        Chip::Lan8672
    };
    assert(is_lan867x_id(id));
    assert(lan867x_init_run(t, i, phy) == lan867x_identify_run(t, j1, phy));
    lemma_chip_from_pkgtyp_only(strap, strap);
    assert(strap & 0x0060u16 == 0 || strap & 0x0060u16 == 0x0020u16 || strap & 0x0060u16
        == 0x0040u16 || strap & 0x0060u16 == 0x0060u16) by (bit_vector);
    if strap & 0x0060u16 != 0 {
        assert(chip_from_strap(strap) == Some(chip));
        assert(lan867x_identify_run(t, j1, phy) == lan867x_finish_run(t, j2 + 1, phy, id, chip));
        if let Some((Err(e), _)) = lan867x_finish_run(t, j2 + 1, phy, id, chip) {
            assert(!(e is UnsupportedPackage));
        }
        if let Some((Ok(c), _)) = lan867x_finish_run(t, j2 + 1, phy, id, chip) {
            assert(c == chip);
        }
    }
}

/// `plca_status` reads `PLCA_CTRL0`, `PLCA_CTRL1` and `PLCA_STS` (MMD 31,
/// `0xCA01`..`0xCA03`) and reports each field from its own bit alone:
/// `enabled` is `PLCA_CTRL0` bit 15, `stable` is `PLCA_STS` bit 15 (`PST`),
/// `node_id` is `PLCA_CTRL1` bits 7:0 and `is_coordinator` says that ID is
/// 0. So PLCA can be enabled while BEACONs are not yet flowing, and the
/// other bits of the three registers never change the answer.
pub proof fn lemma_plca_status_fields<E>(
    t: Seq<MdioOp<E>>,
    i: int,
    phy: u8,
    j: int,
    k: int,
    l: int,
    ctrl0: u16,
    ctrl1: u16,
    sts: u16,
)
    requires
        mmd_read_run(t, i, phy, 0x1Fu8, 0xCA01u16) == Some((Ok::<u16, E>(ctrl0), j)),
        mmd_read_run(t, j, phy, 0x1Fu8, 0xCA02u16) == Some((Ok::<u16, E>(ctrl1), k)),
        mmd_read_run(t, k, phy, 0x1Fu8, 0xCA03u16) == Some((Ok::<u16, E>(sts), l)),
    ensures
        plca_status_run(t, i, phy) matches Some((Ok(s), m)) && {
            &&& m == l
            &&& s.enabled == (ctrl0 & 0x8000u16 != 0)
            &&& s.stable == (sts & 0x8000u16 != 0)
            &&& s.node_id as u16 == ctrl1 & 0x00FFu16
            &&& s.is_coordinator == (ctrl1 & 0x00FFu16 == 0)
        },
{
    assert(((ctrl1 & 0x00FFu16) as u8) as u16 == ctrl1 & 0x00FFu16) by (bit_vector);
}

} // verus!

verus! {

/// `init`'s family check: once the soft reset and the reset-complete
/// handshake have succeeded and the PHY ID reads `id`, a chip whose ID
/// does not match `0x0000_C56x` (any silicon revision) is refused with
/// `UnsupportedChip { id }` right there; a matching one goes on to read
/// `STRAP_CTRL0` (register `0x12`).
pub proof fn lemma_lan867x_init_id_check<E>(
    t: Seq<MdioOp<E>>,
    i: int,
    phy: u8,
    j0: int,
    j1: int,
    id: u32,
    j2: int,
)
    requires
        soft_reset_run(t, i, phy, SOFT_RESET_ATTEMPTS) == Some((Ok::<bool, E>(true), j0)),
        resetc_poll_run(t, j0, phy, RESETC_ATTEMPTS as nat) == Some((Ok::<bool, E>(true), j1)),
        read_phy_id_run(t, j1, phy) == Some((Ok::<u32, E>(id), j2)),
    ensures
        id & 0xFFFF_FFF0u32 != 0x0000_C560u32 ==> lan867x_init_run(t, i, phy) == Some(
            (Err::<Chip, PhyError<E>>(PhyError::UnsupportedChip { id }), j2),
        ),
        id & 0xFFFF_FFF0u32 == 0x0000_C560u32 && lan867x_init_run(t, i, phy) is Some ==> read_at(
            t,
            j2,
            phy,
            0x12u8,
        ) is Some,
{
    assert(lan867x_init_run(t, i, phy) == lan867x_identify_run(t, j1, phy));
}

/// `init`'s last steps, from the `MIDVER` read (MMD 31, `0xCA00`) on: a
/// value other than `0x0A10` refuses the chip with `UnsupportedChip`;
/// `0x0A10` goes on to set multidrop — `T1SPMACTL` (MMD 1, `0x08F9`) is
/// read and written back with bit 10 (`MDE`) set and every other bit as
/// read — and then reports the package.
pub proof fn lemma_lan867x_finish_midver_multidrop<E>(
    t: Seq<MdioOp<E>>,
    j: int,
    phy: u8,
    id: u32,
    chip: Chip,
    midver: u16,
    k: int,
    cur: u16,
    l: int,
)
    requires
        mmd_read_run(t, j, phy, 0x1Fu8, 0xCA00u16) == Some((Ok::<u16, E>(midver), k)),
    ensures
        midver != 0x0A10u16 ==> lan867x_finish_run(t, j, phy, id, chip) == Some(
            (Err::<Chip, PhyError<E>>(PhyError::UnsupportedChip { id }), k),
        ),
        midver == 0x0A10u16 && mmd_read_run(t, k, phy, 0x01u8, 0x08F9u16) == Some(
            (Ok::<u16, E>(cur), l),
        ) ==> lan867x_finish_run(t, j, phy, id, chip) == match mmd_write_run(
            t,
            l,
            phy,
            0x01u8,
            0x08F9u16,
            cur | 0x0400u16,
        ) {
            None => None,
            Some((Err(e), m)) => Some((Err(PhyError::Mdio(e)), m)),
            Some((Ok(_), m)) => Some((Ok(chip), m)),
        },
{
    assert((cur & !0u16) | 0x0400u16 == cur | 0x0400u16) by (bit_vector);
}

/// With PLCA configured on an initialised driver, `poll_link` reads
/// `PLCA_STS` (MMD 31, `0xCA03`) and reports the 10 Mbit/s half-duplex
/// link exactly when bit 15 (`PST`) is set, no link otherwise.
pub proof fn lemma_lan867x_poll_link_pst<E>(
    t: Seq<MdioOp<E>>,
    i: int,
    phy: u8,
    chip: Chip,
    node: u8,
    sts: u16,
    j: int,
)
    requires
        mmd_read_run(t, i, phy, 0x1Fu8, 0xCA03u16) == Some((Ok::<u16, E>(sts), j)),
    ensures
        lan867x_poll_link_run(t, i, phy, Some(chip), Some(node)) == Some(
            (
                Ok::<_, PhyError<E>>(
                    if sts & 0x8000u16 != 0 {
                        Some(link_up_state(Speed::_10M, Duplex::Half))
                    } else {
                        None
                    },
                ),
                j,
            ),
        ),
{
}

} // verus!

verus! {

/// One step of the reset-complete handshake: an `STS2` read (MMD 31,
/// `0x0019`) with bit 11 (`RESETC`) set ends it with `Ok(true)` right
/// after that read; with the bit clear the handshake goes on with one
/// attempt fewer. With no attempts left it gives up with `Ok(false)` and
/// no bus traffic.
pub proof fn lemma_resetc_poll_step<E>(
    t: Seq<MdioOp<E>>,
    j: int,
    phy: u8,
    n: nat,
    v: u16,
    k: int,
)
    requires
        mmd_read_run(t, j, phy, 0x1Fu8, 0x0019u16) == Some((Ok::<u16, E>(v), k)),
    ensures
        resetc_poll_run(t, j, phy, n + 1) == (if v & 0x0800u16 != 0 {
            Some((Ok::<bool, E>(true), k))
        } else {
            resetc_poll_run(t, k, phy, n)
        }),
        resetc_poll_run(t, j, phy, 0) == Some((Ok::<bool, E>(false), j)),
{
}

/// `init`'s two waits, each 500 attempts long: a soft reset whose reset
/// write (`0x8000` to BMCR) succeeded and whose 500 BMCR polls all saw bit
/// 15 set ends `init` with `ResetTimeout`; once the soft reset completes,
/// the `STS2.RESETC` handshake gets 500 attempts — `ResetTimeout` if none
/// sees the bit, identification once one does.
pub proof fn lemma_lan867x_init_waits<E>(t: Seq<MdioOp<E>>, i: int, phy: u8)
    ensures
        (write_at(t, i, phy, 0u8, 0x8000u16) matches Some(Ok(_)) && forall|k: int|
            i + 1 <= k < i + 501 ==> (#[trigger] read_at(t, k, phy, 0u8) matches Some(Ok(v)) && v
                & 0x8000u16 != 0)) ==> lan867x_init_run(t, i, phy) == Some(
            (Err::<Chip, PhyError<E>>(PhyError::ResetTimeout), i + 501),
        ),
        soft_reset_run(t, i, phy, 500u32) matches Some((Ok(true), j0)) ==> lan867x_init_run(
            t,
            i,
            phy,
        ) == match resetc_poll_run(t, j0, phy, 500nat) {
            None => None,
            Some((Err(e), j)) => Some((Err(PhyError::Mdio(e)), j)),
            Some((Ok(false), j)) => Some((Err(PhyError::ResetTimeout), j)),
            Some((Ok(true), j)) => lan867x_identify_run(t, j, phy),
        },
{
    if write_at(t, i, phy, 0u8, 0x8000u16) matches Some(Ok(_)) && forall|k: int|
        i + 1 <= k < i + 501 ==> (#[trigger] read_at(t, k, phy, 0u8) matches Some(Ok(v)) && v
            & 0x8000u16 != 0) {
        ieee802_3::lemma_reset_poll_gives_up(t, i + 1, phy, 500);
    }
}

} // verus!

verus! {

/// `configure_plca` refuses a configuration, with `InvalidConfig` and no
/// bus traffic, exactly when its node ID is `0xFF` or it is a follower
/// whose ID is not below a non-zero node count.
pub proof fn lemma_configure_plca_refuses<E>(
    t: Seq<MdioOp<E>>,
    i: int,
    phy: u8,
    config: PlcaConfig,
)
    ensures
        (configure_plca_run(t, i, phy, config) == Some(
            (Err::<(), PlcaError<E>>(PlcaError::InvalidConfig), i),
        )) <==> (config.node_id == 0xFFu8 || (config.node_count != 0 && config.node_id
            >= config.node_count)),
{
    lemma_configure_plca_validation::<E>(t, i, phy, config);
}

/// An accepted `configure_plca`, register by register (all in MMD 31):
/// `PLCA_CTRL1` (`0xCA02`) = `node_count * 256 + node_id`, then
/// `PLCA_BURST` (`0xCA05`) = `burst_count * 256 + timer` with a zero timer
/// sent as `0x80`, then `PLCA_CTRL0` (`0xCA01`) is read and written back
/// with bit 15 (`EN`) set and every other bit as read. A bus error stops
/// the sequence where it happens.
pub proof fn lemma_configure_plca_registers<E>(
    t: Seq<MdioOp<E>>,
    i: int,
    phy: u8,
    config: PlcaConfig,
)
    requires
        config.node_id != 0xFFu8,
        !(config.node_count != 0 && config.node_id >= config.node_count),
    ensures
        ({
            let ctrl1 = (config.node_count as int * 256 + config.node_id as int) as u16;
            let timer: int = if config.burst_timer == 0 {
                0x80
            } else {
                config.burst_timer as int
            };
            let burst = (config.burst_count as int * 256 + timer) as u16;
            configure_plca_run(t, i, phy, config) == match mmd_write_run(
                t,
                i,
                phy,
                0x1Fu8,
                0xCA02u16,
                ctrl1,
            ) {
                None => None,
                Some((Err(e), j)) => Some((Err(PlcaError::Mdio(e)), j)),
                Some((Ok(_), j)) => match mmd_write_run(t, j, phy, 0x1Fu8, 0xCA05u16, burst) {
                    None => None,
                    Some((Err(e), k)) => Some((Err(PlcaError::Mdio(e)), k)),
                    Some((Ok(_), k)) => match mmd_read_run(t, k, phy, 0x1Fu8, 0xCA01u16) {
                        None => None,
                        Some((Err(e), l)) => Some((Err(PlcaError::Mdio(e)), l)),
                        Some((Ok(cur), l)) => with_plca_error(
                            mmd_write_run(t, l, phy, 0x1Fu8, 0xCA01u16, cur | 0x8000u16),
                        ),
                    },
                },
            }
        }),
{
    lemma_plca_register_values(config);
    assert forall|cur: u16| (cur & !0u16) | 0x8000u16 == cur | 0x8000u16 by {
        assert((cur & !0u16) | 0x8000u16 == cur | 0x8000u16) by (bit_vector);
    }
}

/// `disable_plca` reads `PLCA_CTRL0` (MMD 31, `0xCA01`) and writes it back
/// with bit 15 (`EN`) cleared and every other bit as read.
pub proof fn lemma_disable_plca_registers<E>(t: Seq<MdioOp<E>>, i: int, phy: u8)
    ensures
        disable_plca_run(t, i, phy) == match mmd_read_run(t, i, phy, 0x1Fu8, 0xCA01u16) {
            None => None,
            Some((Err(e), l)) => Some((Err(PlcaError::Mdio(e)), l)),
            Some((Ok(cur), l)) => with_plca_error(
                mmd_write_run(t, l, phy, 0x1Fu8, 0xCA01u16, cur & 0x7FFFu16),
            ),
        },
{
    assert forall|cur: u16| (cur & !0x8000u16) | 0u16 == cur & 0x7FFFu16 by {
        assert((cur & !0x8000u16) | 0u16 == cur & 0x7FFFu16) by (bit_vector);
    }
}

} // verus!
