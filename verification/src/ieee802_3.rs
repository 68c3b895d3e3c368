//! IEEE 802.3 Clause 22 standard register constants and helper functions.
//!
//! This module provides:
//! - Register address constants (`regs`)
//! - Bit-field constants for BMCR, BMSR, ANAR, ANLPAR registers
//! - Helper functions for common PHY operations (reset, link check,
//!   auto-negotiation, ID read, capability query, forced link)
//!
//! Each helper `f` comes with a spec function `f_run` that reads a bus
//! transcript from a position and says which transactions `f` issues and
//! what it returns; the helper's contract states that the transactions it
//! appended to the bus transcript are exactly one such run.
use crate::mdio::{addressed_to, extends, op_phy, read_at, write_at, MdioBus, MdioOp};
use crate::types::{Duplex, LinkState, PhyCapabilities, Speed};
use vstd::prelude::*;

pub mod anar;
pub mod anlpar;
pub mod bmcr;
pub mod bmsr;
pub mod regs;

verus! {

// ── Register values ────────────────────────────────────────────────────

/// BMCR after enabling and restarting auto-negotiation from `bmcr`:
/// `AN_ENABLE` and `AN_RESTART` set, `ISOLATE` cleared.
pub open spec fn an_enabled_bmcr(bmcr: u16) -> u16 {
    (bmcr | (bmcr::AN_ENABLE | bmcr::AN_RESTART)) & !bmcr::ISOLATE
}

/// BMCR after forcing the link to `speed` / `duplex` from `bmcr`:
/// auto-negotiation, its restart and isolation are off, and the speed and
/// duplex selects say what was asked for.
pub open spec fn forced_bmcr(bmcr: u16, speed: Speed, duplex: Duplex) -> u16 {
    let cleared = bmcr & !(bmcr::AN_ENABLE | bmcr::AN_RESTART | bmcr::ISOLATE | bmcr::SPEED_100
        | bmcr::DUPLEX_FULL);
    let with_speed = if speed == Speed::_100M {
        cleared | bmcr::SPEED_100
    } else {
        cleared
    };
    if duplex == Duplex::Full {
        with_speed | bmcr::DUPLEX_FULL
    } else {
        with_speed
    }
}

/// The 32-bit PHY identifier made of the two ID registers.
pub open spec fn phy_id_value(id1: u16, id2: u16) -> u32 {
    ((id1 as u32) << 16u32) | (id2 as u32)
}

/// Capabilities read off a BMSR value. BMSR has no PAUSE bit, so `pause`
/// is always `false`.
pub open spec fn capabilities_from_bmsr(bmsr: u16) -> PhyCapabilities {
    PhyCapabilities {
        speed_100_fd: bmsr & bmsr::TX_FD_CAPABLE != 0,
        speed_100_hd: bmsr & bmsr::TX_HD_CAPABLE != 0,
        speed_10_fd: bmsr & bmsr::T10_FD_CAPABLE != 0,
        speed_10_hd: bmsr & bmsr::T10_HD_CAPABLE != 0,
        auto_negotiation: bmsr & bmsr::AN_ABILITY != 0,
        pause: false,
    }
}

// ── Runs ───────────────────────────────────────────────────────────────

/// The BMCR poll of a soft reset, at most `n` more reads: `Ok(true)` at the
/// first read with `RESET` clear, `Ok(false)` once `n` reads all had it set.
pub open spec fn reset_poll_run<E>(t: Seq<MdioOp<E>>, i: int, phy: u8, n: nat) -> Option<
    (Result<bool, E>, int),
>
    decreases n,
{
    if n == 0 {
        Some((Ok(false), i))
    } else {
        match read_at(t, i, phy, regs::BMCR) {
            None => None,
            Some(Err(e)) => Some((Err(e), i + 1)),
            Some(Ok(v)) => if v & bmcr::RESET == 0 {
                Some((Ok(true), i + 1))
            } else {
                reset_poll_run(t, i + 1, phy, (n - 1) as nat)
            },
        }
    }
}

/// [`soft_reset`]: write `RESET` to BMCR, then poll BMCR.
pub open spec fn soft_reset_run<E>(t: Seq<MdioOp<E>>, i: int, phy: u8, max_attempts: u32) -> Option<
    (Result<bool, E>, int),
> {
    match write_at(t, i, phy, regs::BMCR, bmcr::RESET) {
        None => None,
        Some(Err(e)) => Some((Err(e), i + 1)),
        Some(Ok(_)) => reset_poll_run(t, i + 1, phy, max_attempts as nat),
    }
}

/// [`is_link_up`]: one read of BMSR; up when `LINK_STATUS` is set.
pub open spec fn is_link_up_run<E>(t: Seq<MdioOp<E>>, i: int, phy: u8) -> Option<
    (Result<bool, E>, int),
> {
    match read_at(t, i, phy, regs::BMSR) {
        None => None,
        Some(Err(e)) => Some((Err(e), i + 1)),
        Some(Ok(v)) => Some((Ok(v & bmsr::LINK_STATUS != 0), i + 1)),
    }
}

/// [`enable_auto_negotiation`]: read BMCR, write back [`an_enabled_bmcr`].
pub open spec fn enable_auto_negotiation_run<E>(t: Seq<MdioOp<E>>, i: int, phy: u8) -> Option<
    (Result<(), E>, int),
> {
    match read_at(t, i, phy, regs::BMCR) {
        None => None,
        Some(Err(e)) => Some((Err(e), i + 1)),
        Some(Ok(v)) => match write_at(t, i + 1, phy, regs::BMCR, an_enabled_bmcr(v)) {
            None => None,
            Some(r) => Some((r, i + 2)),
        },
    }
}

/// [`read_phy_id`]: read PHYIDR1 then PHYIDR2.
pub open spec fn read_phy_id_run<E>(t: Seq<MdioOp<E>>, i: int, phy: u8) -> Option<
    (Result<u32, E>, int),
> {
    match read_at(t, i, phy, regs::PHYIDR1) {
        None => None,
        Some(Err(e)) => Some((Err(e), i + 1)),
        Some(Ok(id1)) => match read_at(t, i + 1, phy, regs::PHYIDR2) {
            None => None,
            Some(Err(e)) => Some((Err(e), i + 2)),
            Some(Ok(id2)) => Some((Ok(phy_id_value(id1, id2)), i + 2)),
        },
    }
}

/// [`read_capabilities`]: one read of BMSR.
pub open spec fn read_capabilities_run<E>(t: Seq<MdioOp<E>>, i: int, phy: u8) -> Option<
    (Result<PhyCapabilities, E>, int),
> {
    match read_at(t, i, phy, regs::BMSR) {
        None => None,
        Some(Err(e)) => Some((Err(e), i + 1)),
        Some(Ok(v)) => Some((Ok(capabilities_from_bmsr(v)), i + 1)),
    }
}

/// [`force_link`]: read BMCR, write back [`forced_bmcr`].
pub open spec fn force_link_run<E>(t: Seq<MdioOp<E>>, i: int, phy: u8, status: LinkState) -> Option<
    (Result<(), E>, int),
> {
    match read_at(t, i, phy, regs::BMCR) {
        None => None,
        Some(Err(e)) => Some((Err(e), i + 1)),
        Some(Ok(v)) => match write_at(
            t,
            i + 1,
            phy,
            regs::BMCR,
            forced_bmcr(v, status.speed, status.duplex),
        ) {
            None => None,
            Some(r) => Some((r, i + 2)),
        },
    }
}

// ── Runs survive extension of the transcript ───────────────────────────

/// A soft-reset poll found in a transcript is unchanged when the transcript grows.
pub proof fn lemma_reset_poll_run_extends<E>(
    t: Seq<MdioOp<E>>,
    t2: Seq<MdioOp<E>>,
    i: int,
    phy: u8,
    n: nat,
)
    requires
        extends(t2, t),
        reset_poll_run(t, i, phy, n) is Some,
    ensures
        reset_poll_run(t2, i, phy, n) == reset_poll_run(t, i, phy, n),
    decreases n,
{
    if n > 0 {
        assert(t2[i] == t[i]);
        match read_at(t, i, phy, regs::BMCR) {
            Some(Ok(v)) => if v & bmcr::RESET != 0 {
                lemma_reset_poll_run_extends(t, t2, i + 1, phy, (n - 1) as nat);
            },
            _ => {},
        }
    }
}

/// A soft-reset run found in a transcript is unchanged when the transcript grows.
pub proof fn lemma_soft_reset_run_extends<E>(
    t: Seq<MdioOp<E>>,
    t2: Seq<MdioOp<E>>,
    i: int,
    phy: u8,
    max_attempts: u32,
)
    requires
        extends(t2, t),
        soft_reset_run(t, i, phy, max_attempts) is Some,
    ensures
        soft_reset_run(t2, i, phy, max_attempts) == soft_reset_run(t, i, phy, max_attempts),
{
    assert(t2[i] == t[i]);
    if write_at(t, i, phy, regs::BMCR, bmcr::RESET) matches Some(Ok(_)) {
        lemma_reset_poll_run_extends(t, t2, i + 1, phy, max_attempts as nat);
    }
}

/// A PHY ID read found in a transcript is unchanged when the transcript grows.
pub proof fn lemma_read_phy_id_run_extends<E>(t: Seq<MdioOp<E>>, t2: Seq<MdioOp<E>>, i: int, phy: u8)
    requires
        extends(t2, t),
        read_phy_id_run(t, i, phy) is Some,
    ensures
        read_phy_id_run(t2, i, phy) == read_phy_id_run(t, i, phy),
{
    assert(t2[i] == t[i]);
    if read_at(t, i, phy, regs::PHYIDR1) matches Some(Ok(_)) {
        assert(t2[i + 1] == t[i + 1]);
    }
}

/// A link check found in a transcript is unchanged when the transcript grows.
pub proof fn lemma_is_link_up_run_extends<E>(t: Seq<MdioOp<E>>, t2: Seq<MdioOp<E>>, i: int, phy: u8)
    requires
        extends(t2, t),
        is_link_up_run(t, i, phy) is Some,
    ensures
        is_link_up_run(t2, i, phy) == is_link_up_run(t, i, phy),
{
    assert(t2[i] == t[i]);
}

/// A BMCR read at position `k` that saw `RESET` still set.
pub open spec fn reset_still_set<E>(t: Seq<MdioOp<E>>, k: int, phy: u8) -> bool {
    match read_at(t, k, phy, regs::BMCR) {
        Some(Ok(v)) => v & bmcr::RESET != 0,
        _ => false,
    }
}

/// `k` polls that all saw `RESET` set can be skipped.
proof fn lemma_reset_poll_skip<E>(t: Seq<MdioOp<E>>, i: int, phy: u8, n: nat, k: nat)
    requires
        k <= n,
        forall|j: int| i <= j < i + k ==> reset_still_set(t, j, phy),
    ensures
        reset_poll_run(t, i, phy, n) == reset_poll_run(t, i + k, phy, (n - k) as nat),
    decreases k,
{
    if k > 0 {
        assert(reset_still_set(t, i, phy));
        lemma_reset_poll_skip(t, i + 1, phy, (n - 1) as nat, (k - 1) as nat);
    }
}

// ── Helpers ────────────────────────────────────────────────────────────

/// Perform a software reset on the PHY.
///
/// Writes BMCR with `RESET` (`0x8000`) and polls BMCR up to `max_attempts`
/// times until the bit self-clears. The write is intentionally raw: a soft
/// reset reloads the PHY's default register state anyway.
///
/// Returns `Ok(true)` if reset completed (bit cleared), `Ok(false)` if
/// `max_attempts` polls all saw the bit still set. The caller decides
/// whether to treat a timeout as an error.
pub fn soft_reset<M: MdioBus>(mdio: &mut M, phy_addr: u8, max_attempts: u32) -> (r: Result<
    bool,
    M::Error,
>)
    ensures
        extends(final(mdio).transcript(), old(mdio).transcript()),
        soft_reset_run(
            final(mdio).transcript(),
            old(mdio).transcript().len() as int,
            phy_addr,
            max_attempts,
        ) == Some((r, final(mdio).transcript().len() as int)),
{
    let ghost t0 = mdio.transcript();
    let ghost start = t0.len() as int;
    match mdio.write(phy_addr, regs::BMCR, bmcr::RESET) {
        Ok(()) => {},
        Err(e) => {
            return Err(e);
        },
    }
    let mut attempt: u32 = 0;
    while attempt < max_attempts
        invariant
            t0 == old(mdio).transcript(),
            start == t0.len(),
            extends(mdio.transcript(), t0),
            mdio.transcript().len() == start + 1 + attempt,
            attempt <= max_attempts,
            write_at(mdio.transcript(), start, phy_addr, regs::BMCR, bmcr::RESET) is Some,
            write_at(mdio.transcript(), start, phy_addr, regs::BMCR, bmcr::RESET).unwrap() is Ok,
            forall|j: int|
                start + 1 <= j < start + 1 + attempt ==> reset_still_set(
                    mdio.transcript(),
                    j,
                    phy_addr,
                ),
        decreases max_attempts - attempt,
    {
        let ghost before = mdio.transcript();
        let res = mdio.read(phy_addr, regs::BMCR);
        let ghost after = mdio.transcript();
        proof {
            assert(extends(after, before));
            crate::mdio::lemma_extends_trans(t0, before, after);
            assert forall|j: int| start + 1 <= j < start + 1 + attempt implies reset_still_set(
                after,
                j,
                phy_addr,
            ) by {
                assert(reset_still_set(before, j, phy_addr));
                assert(after[j] == before[j]);
            }
            assert(after[start] == before[start]);
        }
        match res {
            Err(e) => {
                proof {
                    lemma_reset_poll_skip(
                        after,
                        start + 1,
                        phy_addr,
                        max_attempts as nat,
                        attempt as nat,
                    );
                }
                return Err(e);
            },
            Ok(val) => {
                if val & bmcr::RESET == 0 {
                    proof {
                        lemma_reset_poll_skip(
                            after,
                            start + 1,
                            phy_addr,
                            max_attempts as nat,
                            attempt as nat,
                        );
                    }
                    return Ok(true);
                }
            },
        }
        attempt = attempt + 1;
    }
    proof {
        lemma_reset_poll_skip(
            mdio.transcript(),
            start + 1,
            phy_addr,
            max_attempts as nat,
            max_attempts as nat,
        );
    }
    Ok(false)
}

/// Check whether the PHY link is up: reads BMSR and returns `true` if the
/// `LINK_STATUS` bit is set.
pub fn is_link_up<M: MdioBus>(mdio: &mut M, phy_addr: u8) -> (r: Result<bool, M::Error>)
    ensures
        extends(final(mdio).transcript(), old(mdio).transcript()),
        is_link_up_run(final(mdio).transcript(), old(mdio).transcript().len() as int, phy_addr)
            == Some((r, final(mdio).transcript().len() as int)),
{
    let val = mdio.read(phy_addr, regs::BMSR)?;
    Ok(val & bmsr::LINK_STATUS != 0)
}

/// Enable auto-negotiation and restart it: reads BMCR, sets `AN_ENABLE` and
/// `AN_RESTART`, clears `ISOLATE`, then writes the updated value back.
pub fn enable_auto_negotiation<M: MdioBus>(mdio: &mut M, phy_addr: u8) -> (r: Result<
    (),
    M::Error,
>)
    ensures
        extends(final(mdio).transcript(), old(mdio).transcript()),
        enable_auto_negotiation_run(
            final(mdio).transcript(),
            old(mdio).transcript().len() as int,
            phy_addr,
        ) == Some((r, final(mdio).transcript().len() as int)),
{
    let mut val = mdio.read(phy_addr, regs::BMCR)?;
    val |= bmcr::AN_ENABLE | bmcr::AN_RESTART;
    val &= !bmcr::ISOLATE;
    mdio.write(phy_addr, regs::BMCR, val)
}

/// Read the 32-bit PHY identifier: reads PHYIDR1 and PHYIDR2 and returns
/// `(id1 << 16) | id2`.
pub fn read_phy_id<M: MdioBus>(mdio: &mut M, phy_addr: u8) -> (r: Result<u32, M::Error>)
    ensures
        extends(final(mdio).transcript(), old(mdio).transcript()),
        read_phy_id_run(final(mdio).transcript(), old(mdio).transcript().len() as int, phy_addr)
            == Some((r, final(mdio).transcript().len() as int)),
{
    let id1 = mdio.read(phy_addr, regs::PHYIDR1)? as u32;
    let id2 = mdio.read(phy_addr, regs::PHYIDR2)? as u32;
    Ok((id1 << 16) | id2)
}

/// Read PHY hardware capabilities from BMSR.
///
/// BMSR has no PAUSE-capability bit (PAUSE is advertised through ANAR), so
/// `pause` is always `false` here: a conservative default, not a
/// measurement.
pub fn read_capabilities<M: MdioBus>(mdio: &mut M, phy_addr: u8) -> (r: Result<
    PhyCapabilities,
    M::Error,
>)
    ensures
        extends(final(mdio).transcript(), old(mdio).transcript()),
        read_capabilities_run(
            final(mdio).transcript(),
            old(mdio).transcript().len() as int,
            phy_addr,
        ) == Some((r, final(mdio).transcript().len() as int)),
{
    let val = mdio.read(phy_addr, regs::BMSR)?;
    Ok(
        PhyCapabilities {
            speed_100_fd: val & bmsr::TX_FD_CAPABLE != 0,
            speed_100_hd: val & bmsr::TX_HD_CAPABLE != 0,
            speed_10_fd: val & bmsr::T10_FD_CAPABLE != 0,
            speed_10_hd: val & bmsr::T10_HD_CAPABLE != 0,
            auto_negotiation: val & bmsr::AN_ABILITY != 0,
            pause: false,
        },
    )
}

/// Force link speed and duplex (disable auto-negotiation).
///
/// Reads BMCR, clears `AN_ENABLE`, `AN_RESTART` and `ISOLATE`, sets
/// `SPEED_100` / `DUPLEX_FULL` according to `status`, then writes back.
/// `AN_RESTART` is cleared explicitly so that a later
/// [`enable_auto_negotiation`] does not read it back as 1 and re-write it,
/// whatever the order in which the two helpers are called.
pub fn force_link<M: MdioBus>(mdio: &mut M, phy_addr: u8, status: LinkState) -> (r: Result<
    (),
    M::Error,
>)
    ensures
        extends(final(mdio).transcript(), old(mdio).transcript()),
        force_link_run(
            final(mdio).transcript(),
            old(mdio).transcript().len() as int,
            phy_addr,
            status,
        ) == Some((r, final(mdio).transcript().len() as int)),
{
    let mut val = mdio.read(phy_addr, regs::BMCR)?;
    val &= !(bmcr::AN_ENABLE | bmcr::AN_RESTART | bmcr::ISOLATE | bmcr::SPEED_100
        | bmcr::DUPLEX_FULL);
    match status.speed {
        Speed::_100M => val |= bmcr::SPEED_100,
        Speed::_10M => {},
    }
    match status.duplex {
        Duplex::Full => val |= bmcr::DUPLEX_FULL,
        Duplex::Half => {},
    }
    mdio.write(phy_addr, regs::BMCR, val)
}

} // verus!

verus! {

// ── Laws ───────────────────────────────────────────────────────────────

/// Enabling auto-negotiation sets `AN_ENABLE` and `AN_RESTART`, clears
/// `ISOLATE`, and keeps every other BMCR bit as it was read.
pub proof fn lemma_an_enabled_bmcr_bits(bmcr: u16)
    ensures
        an_enabled_bmcr(bmcr) & bmcr::AN_ENABLE != 0,
        an_enabled_bmcr(bmcr) & bmcr::AN_RESTART != 0,
        an_enabled_bmcr(bmcr) & bmcr::ISOLATE == 0,
        an_enabled_bmcr(bmcr) & !(bmcr::AN_ENABLE | bmcr::AN_RESTART | bmcr::ISOLATE) == bmcr
            & !(bmcr::AN_ENABLE | bmcr::AN_RESTART | bmcr::ISOLATE),
{
    assert(bmcr::AN_ENABLE | bmcr::AN_RESTART == 0x1200u16) by (bit_vector);
    assert(bmcr::AN_ENABLE | bmcr::AN_RESTART | bmcr::ISOLATE == 0x1600u16) by (bit_vector);
    assert(((bmcr | 0x1200u16) & !0x0400u16) & 0x1000u16 != 0) by (bit_vector);
    assert(((bmcr | 0x1200u16) & !0x0400u16) & 0x0200u16 != 0) by (bit_vector);
    assert(((bmcr | 0x1200u16) & !0x0400u16) & 0x0400u16 == 0) by (bit_vector);
    assert(((bmcr | 0x1200u16) & !0x0400u16) & !0x1600u16 == bmcr & !0x1600u16) by (bit_vector);
}

/// Forcing the link clears `AN_ENABLE`, `AN_RESTART` and `ISOLATE`, sets
/// `SPEED_100` exactly for 100 Mbit/s and `DUPLEX_FULL` exactly for full
/// duplex, and keeps every other BMCR bit (such as `LOOPBACK`) as it was
/// read.
pub proof fn lemma_forced_bmcr_bits(bmcr: u16, speed: Speed, duplex: Duplex)
    ensures
        forced_bmcr(bmcr, speed, duplex) & bmcr::AN_ENABLE == 0,
        forced_bmcr(bmcr, speed, duplex) & bmcr::AN_RESTART == 0,
        forced_bmcr(bmcr, speed, duplex) & bmcr::ISOLATE == 0,
        (forced_bmcr(bmcr, speed, duplex) & bmcr::SPEED_100 != 0) == (speed == Speed::_100M),
        (forced_bmcr(bmcr, speed, duplex) & bmcr::DUPLEX_FULL != 0) == (duplex == Duplex::Full),
        forced_bmcr(bmcr, speed, duplex) & !(bmcr::AN_ENABLE | bmcr::AN_RESTART | bmcr::ISOLATE
            | bmcr::SPEED_100 | bmcr::DUPLEX_FULL) == bmcr & !(bmcr::AN_ENABLE | bmcr::AN_RESTART
            | bmcr::ISOLATE | bmcr::SPEED_100 | bmcr::DUPLEX_FULL),
{
    let c = bmcr & !0x3700u16;
    assert(bmcr::AN_ENABLE | bmcr::AN_RESTART | bmcr::ISOLATE | bmcr::SPEED_100
        | bmcr::DUPLEX_FULL == 0x3700u16) by (bit_vector);
    assert(c & 0x1000u16 == 0 && c & 0x0200u16 == 0 && c & 0x0400u16 == 0 && c & 0x2000u16 == 0
        && c & 0x0100u16 == 0) by (bit_vector)
        requires
            c == bmcr & !0x3700u16,
    ;
    assert((c | 0x2000u16) & 0x1000u16 == 0 && (c | 0x2000u16) & 0x0200u16 == 0 && (c
        | 0x2000u16) & 0x0400u16 == 0 && (c | 0x2000u16) & 0x2000u16 != 0 && (c | 0x2000u16)
        & 0x0100u16 == 0 && (c | 0x2000u16) & !0x3700u16 == bmcr & !0x3700u16) by (bit_vector)
        requires
            c == bmcr & !0x3700u16,
    ;
    assert((c | 0x0100u16) & 0x1000u16 == 0 && (c | 0x0100u16) & 0x0200u16 == 0 && (c
        | 0x0100u16) & 0x0400u16 == 0 && (c | 0x0100u16) & 0x2000u16 == 0 && (c | 0x0100u16)
        & 0x0100u16 != 0 && (c | 0x0100u16) & !0x3700u16 == bmcr & !0x3700u16) by (bit_vector)
        requires
            c == bmcr & !0x3700u16,
    ;
    assert(((c | 0x2000u16) | 0x0100u16) & 0x1000u16 == 0 && ((c | 0x2000u16) | 0x0100u16)
        & 0x0200u16 == 0 && ((c | 0x2000u16) | 0x0100u16) & 0x0400u16 == 0 && ((c | 0x2000u16)
        | 0x0100u16) & 0x2000u16 != 0 && ((c | 0x2000u16) | 0x0100u16) & 0x0100u16 != 0 && ((c
        | 0x2000u16) | 0x0100u16) & !0x3700u16 == bmcr & !0x3700u16) by (bit_vector)
        requires
            c == bmcr & !0x3700u16,
    ;
    assert(c & !0x3700u16 == bmcr & !0x3700u16) by (bit_vector)
        requires
            c == bmcr & !0x3700u16,
    ;
}

/// The PHY identifier is `id1 * 2^16 + id2`: its upper half is PHYIDR1 and
/// its lower half PHYIDR2, so each register can be read back from it.
pub proof fn lemma_phy_id_value(id1: u16, id2: u16)
    ensures
        phy_id_value(id1, id2) == id1 as int * 0x1_0000 + id2 as int,
        phy_id_value(id1, id2) >> 16u32 == id1 as u32,
        phy_id_value(id1, id2) & 0xFFFFu32 == id2 as u32,
{
    let a = id1 as u32;
    let b = id2 as u32;
    assert(((a << 16u32) | b) == a * 0x1_0000 + b && ((a << 16u32) | b) >> 16u32 == a && ((a
        << 16u32) | b) & 0xFFFFu32 == b) by (bit_vector)
        requires
            a < 0x1_0000,
            b < 0x1_0000,
    ;
}

/// A soft reset reports completion exactly when a BMCR poll saw `RESET`
/// clear: `Ok(true)` has its last poll with the bit clear, `Ok(false)` comes
/// after exactly `max_attempts` polls that all saw it set, and every
/// transaction after the reset write is a BMCR read.
pub proof fn lemma_reset_poll_outcome<E>(t: Seq<MdioOp<E>>, i: int, phy: u8, n: nat)
    requires
        reset_poll_run(t, i, phy, n) is Some,
    ensures
        ({
            let (r, j) = reset_poll_run(t, i, phy, n).unwrap();
            &&& i <= j <= i + n
            &&& forall|k: int| i <= k < j ==> #[trigger] read_at(t, k, phy, regs::BMCR) is Some
            &&& (r == Ok::<bool, E>(false)) ==> (j == i + n && forall|k: int|
                i <= k < j ==> #[trigger] reset_still_set(t, k, phy))
            &&& (r == Ok::<bool, E>(true)) ==> (j > i && !reset_still_set(t, j - 1, phy) && read_at(
                t,
                j - 1,
                phy,
                regs::BMCR,
            ).unwrap() is Ok)
        }),
    decreases n,
{
    if n > 0 {
        if let Some(Ok(v)) = read_at(t, i, phy, regs::BMCR) {
            if v & bmcr::RESET != 0 {
                lemma_reset_poll_outcome(t, i + 1, phy, (n - 1) as nat);
                let (r, j) = reset_poll_run(t, i, phy, n).unwrap();
                assert forall|k: int| i <= k < j implies #[trigger] read_at(
                    t,
                    k,
                    phy,
                    regs::BMCR,
                ) is Some by {
                    if k == i {
                    } else {
                        assert(i + 1 <= k < j);
                    }
                }
                if r == Ok::<bool, E>(false) {
                    assert forall|k: int| i <= k < j implies #[trigger] reset_still_set(
                        t,
                        k,
                        phy,
                    ) by {
                        if k == i {
                        } else {
                            assert(i + 1 <= k < j);
                        }
                    }
                }
            }
        }
    }
}

} // verus!

verus! {

/// The BMCR polls of a soft reset all go to the PHY being reset.
pub proof fn lemma_reset_poll_run_addressed<E>(t: Seq<MdioOp<E>>, i: int, phy: u8, n: nat)
    requires
        reset_poll_run(t, i, phy, n) is Some,
    ensures
        addressed_to(t, i, reset_poll_run(t, i, phy, n).unwrap().1, phy),
    decreases n,
{
    if n > 0 {
        let j = reset_poll_run(t, i, phy, n).unwrap().1;
        assert(op_phy(t[i]) == phy);
        if let Some(Ok(v)) = read_at(t, i, phy, regs::BMCR) {
            if v & bmcr::RESET != 0 {
                lemma_reset_poll_run_addressed(t, i + 1, phy, (n - 1) as nat);
                crate::mdio::lemma_addressed_to_join(t, i, i + 1, j, phy);
            }
        }
    }
}

/// Every transaction of each Clause 22 helper goes to the PHY address it
/// was given.
pub proof fn lemma_runs_addressed<E>(t: Seq<MdioOp<E>>, i: int, phy: u8, max_attempts: u32, status: LinkState)
    ensures
        soft_reset_run(t, i, phy, max_attempts) is Some ==> addressed_to(
            t,
            i,
            soft_reset_run(t, i, phy, max_attempts).unwrap().1,
            phy,
        ),
        is_link_up_run(t, i, phy) is Some ==> addressed_to(
            t,
            i,
            is_link_up_run(t, i, phy).unwrap().1,
            phy,
        ),
        enable_auto_negotiation_run(t, i, phy) is Some ==> addressed_to(
            t,
            i,
            enable_auto_negotiation_run(t, i, phy).unwrap().1,
            phy,
        ),
        read_phy_id_run(t, i, phy) is Some ==> addressed_to(
            t,
            i,
            read_phy_id_run(t, i, phy).unwrap().1,
            phy,
        ),
        read_capabilities_run(t, i, phy) is Some ==> addressed_to(
            t,
            i,
            read_capabilities_run(t, i, phy).unwrap().1,
            phy,
        ),
        force_link_run(t, i, phy, status) is Some ==> addressed_to(
            t,
            i,
            force_link_run(t, i, phy, status).unwrap().1,
            phy,
        ),
{
    if soft_reset_run(t, i, phy, max_attempts) is Some {
        assert(op_phy(t[i]) == phy);
        if write_at(t, i, phy, regs::BMCR, bmcr::RESET) matches Some(Ok(_)) {
            lemma_reset_poll_run_addressed(t, i + 1, phy, max_attempts as nat);
            crate::mdio::lemma_addressed_to_join(
                t,
                i,
                i + 1,
                soft_reset_run(t, i, phy, max_attempts).unwrap().1,
                phy,
            );
        }
    }
    if read_at(t, i, phy, regs::BMCR) is Some {
        assert(op_phy(t[i]) == phy);
    }
    if let Some(Ok(v)) = read_at(t, i, phy, regs::BMCR) {
        if write_at(t, i + 1, phy, regs::BMCR, an_enabled_bmcr(v)) is Some {
            assert(op_phy(t[i + 1]) == phy);
        }
        if write_at(t, i + 1, phy, regs::BMCR, forced_bmcr(v, status.speed, status.duplex)) is Some {
            assert(op_phy(t[i + 1]) == phy);
        }
    }
    if read_at(t, i, phy, regs::PHYIDR1) is Some {
        assert(op_phy(t[i]) == phy);
    }
    if read_at(t, i + 1, phy, regs::PHYIDR2) is Some {
        assert(op_phy(t[i + 1]) == phy);
    }
    if read_at(t, i, phy, regs::BMSR) is Some {
        assert(op_phy(t[i]) == phy);
    }
}

} // verus!

verus! {

// ── Laws on what the status helpers report ─────────────────────────────

/// `is_link_up` answers with BMSR bit 2 (`LINK_STATUS`, `0x0004`) and with
/// nothing else: whatever value BMSR (register 1) reads, the link is up
/// exactly when that bit is set, after that one read. Any two BMSR values
/// that agree on bit 2 give the same answer, and any two that differ on it
/// give different answers.
pub proof fn lemma_is_link_up_is_link_bit<E>(t: Seq<MdioOp<E>>, i: int, phy: u8, v: u16)
    requires
        read_at(t, i, phy, 1u8) == Some(Ok::<u16, E>(v)),
    ensures
        is_link_up_run(t, i, phy) == Some((Ok::<bool, E>(v & 0x0004u16 != 0), i + 1)),
{
}

/// `read_capabilities` (and so `capabilities` of both drivers) reports each
/// BMSR ability bit as its own flag and nothing else: 100BASE-TX full
/// duplex is bit 14, half duplex bit 13, 10BASE-T full duplex bit 12, half
/// duplex bit 11, auto-negotiation bit 3; `pause` is never reported, BMSR
/// having no such bit. It takes one read of BMSR (register 1).
pub proof fn lemma_read_capabilities_bits<E>(t: Seq<MdioOp<E>>, i: int, phy: u8, v: u16)
    requires
        read_at(t, i, phy, 1u8) == Some(Ok::<u16, E>(v)),
    ensures
        read_capabilities_run(t, i, phy) matches Some((Ok(c), j)) && {
            &&& j == i + 1
            &&& c.speed_100_fd == (v & 0x4000u16 != 0)
            &&& c.speed_100_hd == (v & 0x2000u16 != 0)
            &&& c.speed_10_fd == (v & 0x1000u16 != 0)
            &&& c.speed_10_hd == (v & 0x0800u16 != 0)
            &&& c.auto_negotiation == (v & 0x0008u16 != 0)
            &&& !c.pause
        },
{
}

} // verus!

verus! {

/// `enable_auto_negotiation` reads BMCR (register 0) and writes it back
/// with bit 12 (`AN_ENABLE`) and bit 9 (`AN_RESTART`) set and bit 10
/// (`ISOLATE`) cleared, every other bit as read; the write ends the run.
pub proof fn lemma_enable_auto_negotiation_write<E>(t: Seq<MdioOp<E>>, i: int, phy: u8, v: u16)
    requires
        read_at(t, i, phy, 0u8) == Some(Ok::<u16, E>(v)),
        enable_auto_negotiation_run(t, i, phy) is Some,
    ensures
        enable_auto_negotiation_run(t, i, phy).unwrap().1 == i + 2,
        t[i + 1] matches MdioOp::Write { phy: p, reg, value: w, result: _ } && p == phy && reg
            == 0u8 && w & 0x1000u16 != 0 && w & 0x0200u16 != 0 && w & 0x0400u16 == 0 && w
            & 0xE9FFu16 == v & 0xE9FFu16,
{
    let w = an_enabled_bmcr(v);
    assert(write_at(t, i + 1, phy, 0u8, w) is Some);
    assert(((v | (0x1000u16 | 0x0200u16)) & !0x0400u16) & 0x1000u16 != 0 && ((v | (0x1000u16
        | 0x0200u16)) & !0x0400u16) & 0x0200u16 != 0 && ((v | (0x1000u16 | 0x0200u16))
        & !0x0400u16) & 0x0400u16 == 0 && ((v | (0x1000u16 | 0x0200u16)) & !0x0400u16)
        & 0xE9FFu16 == v & 0xE9FFu16) by (bit_vector);
}

/// `force_link` reads BMCR (register 0) and writes it back with bit 12
/// (`AN_ENABLE`), bit 9 (`AN_RESTART`) and bit 10 (`ISOLATE`) cleared, bit
/// 13 (`SPEED_100`) set exactly for 100 Mbit/s and bit 8 (`DUPLEX_FULL`)
/// set exactly for full duplex, every other bit as read.
pub proof fn lemma_force_link_write<E>(
    t: Seq<MdioOp<E>>,
    i: int,
    phy: u8,
    status: LinkState,
    v: u16,
)
    requires
        read_at(t, i, phy, 0u8) == Some(Ok::<u16, E>(v)),
        force_link_run(t, i, phy, status) is Some,
    ensures
        force_link_run(t, i, phy, status).unwrap().1 == i + 2,
        t[i + 1] matches MdioOp::Write { phy: p, reg, value: w, result: _ } && {
            &&& p == phy && reg == 0u8
            &&& w & 0x1000u16 == 0 && w & 0x0200u16 == 0 && w & 0x0400u16 == 0
            &&& (w & 0x2000u16 != 0) == (status.speed == Speed::_100M)
            &&& (w & 0x0100u16 != 0) == (status.duplex == Duplex::Full)
            &&& w & 0xC8FFu16 == v & 0xC8FFu16
        },
{
    let w = forced_bmcr(v, status.speed, status.duplex);
    assert(write_at(t, i + 1, phy, 0u8, w) is Some);
    let c = v & !(0x1000u16 | 0x0200u16 | 0x0400u16 | 0x2000u16 | 0x0100u16);
    assert(c & 0x3700u16 == 0 && c & 0xC8FFu16 == v & 0xC8FFu16) by (bit_vector)
        requires
            c == v & !(0x1000u16 | 0x0200u16 | 0x0400u16 | 0x2000u16 | 0x0100u16),
    ;
    let s = if status.speed == Speed::_100M {
        c | 0x2000u16
    } else {
        c
    };
    assert((c | 0x2000u16) & 0x1700u16 == 0 && (c | 0x2000u16) & 0xC8FFu16 == c & 0xC8FFu16
        && (c | 0x2000u16) & 0x2000u16 != 0 && c & 0x1700u16 == 0 && c & 0x2000u16 == 0)
        by (bit_vector)
        requires
            c & 0x3700u16 == 0,
    ;
    assert(s & 0x1700u16 == 0 && s & 0xC8FFu16 == v & 0xC8FFu16 && (s & 0x2000u16 != 0) == (
    status.speed == Speed::_100M));
    assert(w == if status.duplex == Duplex::Full {
        s | 0x0100u16
    } else {
        s
    });
    let f = s | 0x0100u16;
    assert(f & 0x1000u16 == 0 && f & 0x0200u16 == 0 && f & 0x0400u16 == 0 && f & 0xC8FFu16 == s
        & 0xC8FFu16 && f & 0x0100u16 != 0 && (f & 0x2000u16 != 0) == (s & 0x2000u16 != 0) && s
        & 0x1000u16 == 0 && s & 0x0200u16 == 0 && s & 0x0400u16 == 0 && s & 0x0100u16 == 0)
        by (bit_vector)
        requires
            s & 0x1700u16 == 0,
            f == s | 0x0100u16,
    ;
}

/// `read_phy_id` reads PHYIDR1 (register 2) then PHYIDR2 (register 3) and
/// returns `PHYIDR1 * 65536 + PHYIDR2`.
pub proof fn lemma_read_phy_id_value<E>(t: Seq<MdioOp<E>>, i: int, phy: u8, a: u16, b: u16)
    requires
        read_at(t, i, phy, 2u8) == Some(Ok::<u16, E>(a)),
        read_at(t, i + 1, phy, 3u8) == Some(Ok::<u16, E>(b)),
    ensures
        read_phy_id_run(t, i, phy) matches Some((Ok(id), j)) && j == i + 2 && id as int == a
            as int * 0x1_0000 + b as int,
{
    lemma_phy_id_value(a, b);
}

/// The BMCR polls of a soft reset, from position `i` with at most `n`
/// polls left: `Ok(true)` exactly at the first read of BMCR (register 0)
/// with bit 15 clear, every earlier one having it set; `Ok(false)` after
/// `n` reads that all had it set.
pub proof fn lemma_reset_poll_bit15<E>(t: Seq<MdioOp<E>>, i: int, phy: u8, n: nat)
    requires
        reset_poll_run(t, i, phy, n) is Some,
    ensures
        ({
            let (r, j) = reset_poll_run(t, i, phy, n).unwrap();
            &&& r is Ok ==> forall|k: int|
                i <= k < j - 1 ==> (#[trigger] read_at(t, k, phy, 0u8) matches Some(Ok(v)) && v
                    & 0x8000u16 != 0)
            &&& r == Ok::<bool, E>(true) ==> j > i
            &&& r == Ok::<bool, E>(true) ==> (read_at(t, j - 1, phy, 0u8) matches Some(Ok(v))
                && v & 0x8000u16 == 0)
            &&& r == Ok::<bool, E>(false) ==> j == i + n
            &&& r == Ok::<bool, E>(false) && n > 0 ==> (read_at(t, j - 1, phy, 0u8) matches Some(
                Ok(v),
            ) && v & 0x8000u16 != 0)
        }),
    decreases n,
{
    if n > 0 {
        if let Some(Ok(v)) = read_at(t, i, phy, 0u8) {
            if v & 0x8000u16 != 0 {
                lemma_reset_poll_bit15(t, i + 1, phy, (n - 1) as nat);
                let (r, j) = reset_poll_run(t, i, phy, n).unwrap();
                if r is Ok {
                    assert forall|k: int| i <= k < j - 1 implies (#[trigger] read_at(
                        t,
                        k,
                        phy,
                        0u8,
                    ) matches Some(Ok(v)) && v & 0x8000u16 != 0) by {
                        if k > i {
                            assert(i + 1 <= k < j - 1);
                        }
                    }
                }
            }
        }
    }
}

/// `soft_reset` first writes `0x8000` (bit 15, `RESET`) to BMCR (register
/// 0), then polls BMCR as [`lemma_reset_poll_bit15`] says.
pub proof fn lemma_soft_reset_write<E>(t: Seq<MdioOp<E>>, i: int, phy: u8, n: u32)
    requires
        soft_reset_run(t, i, phy, n) is Some,
    ensures
        t[i] matches MdioOp::Write { phy: p, reg, value, result: _ } && p == phy && reg == 0u8
            && value == 0x8000u16,
        soft_reset_run(t, i, phy, n) matches Some((Ok(_), _)) ==> soft_reset_run(t, i, phy, n)
            == reset_poll_run(t, i + 1, phy, n as nat),
{
}

} // verus!

verus! {

/// A BMCR poll that only ever sees bit 15 set gives up: if the `n` reads of
/// BMCR (register 0) from `i` all answer with bit 15 set, the poll ends
/// after exactly those `n` reads with `Ok(false)`.
pub proof fn lemma_reset_poll_gives_up<E>(t: Seq<MdioOp<E>>, i: int, phy: u8, n: nat)
    requires
        forall|k: int|
            i <= k < i + n ==> (#[trigger] read_at(t, k, phy, 0u8) matches Some(Ok(v)) && v
                & 0x8000u16 != 0),
    ensures
        reset_poll_run(t, i, phy, n) == Some((Ok::<bool, E>(false), i + n)),
    decreases n,
{
    if n > 0 {
        assert(read_at(t, i, phy, 0u8) matches Some(Ok(v)) && v & 0x8000u16 != 0);
        assert forall|k: int| i + 1 <= k < i + 1 + (n - 1) implies (#[trigger] read_at(
            t,
            k,
            phy,
            0u8,
        ) matches Some(Ok(v)) && v & 0x8000u16 != 0) by {
            assert(i <= k < i + n);
        }
        lemma_reset_poll_gives_up(t, i + 1, phy, (n - 1) as nat);
    }
}

} // verus!
