//! LAN87xx family Ethernet PHY driver.
//!
//! Supports LAN8710A, LAN8720A, LAN8740A, LAN8741A, LAN8742A over MDIO.
use crate::ieee802_3::{
    self, anar, enable_auto_negotiation_run, is_link_up_run, read_capabilities_run,
    read_phy_id_run, soft_reset_run,
};
use crate::mdio::{addressed_to, extends, op_phy, read_at, write_at, MdioBus, MdioOp};
use crate::phy::{with_phy_error, PhyDriver, PhyError};
use crate::types::{link_up_state, Duplex, LinkState, PhyCapabilities, Speed};
use vstd::prelude::*;

pub mod regs;

verus! {

/// How many BMCR polls `init` allows for the soft reset to complete.
pub const SOFT_RESET_ATTEMPTS: u32 = 500;

/// The ANAR value `init` programs: 10BASE-T and 100BASE-TX, half and full
/// duplex, IEEE 802.3 selector (`0x01E1`).
pub open spec fn standard_advertisement() -> u16 {
    anar::TX_FD | anar::TX_HD | anar::T10_FD | anar::T10_HD | anar::SELECTOR_IEEE802_3
}

/// The link reported by a PSCSR value: the speed/duplex indication field
/// decoded, `None` for a reserved code. Other bits do not matter.
pub open spec fn pscsr_link(pscsr: u16) -> Option<LinkState> {
    let field = pscsr & regs::pscsr::SPEED_DUPLEX_MASK;
    if field == regs::pscsr::SPEED_10_HD {
        Some(link_up_state(Speed::_10M, Duplex::Half))
    } else if field == regs::pscsr::SPEED_10_FD {
        Some(link_up_state(Speed::_10M, Duplex::Full))
    } else if field == regs::pscsr::SPEED_100_HD {
        Some(link_up_state(Speed::_100M, Duplex::Half))
    } else if field == regs::pscsr::SPEED_100_FD {
        Some(link_up_state(Speed::_100M, Duplex::Full))
    } else {
        None
    }
}

/// A PHY ID of the LAN87xx family: its OUI bits are the family's.
pub open spec fn is_lan87xx_id(id: u32) -> bool {
    id & regs::PHY_OUI_MASK == regs::PHY_OUI
}

/// `init`, last part: disable EDPD in MCSR (read-modify-write), program
/// ANAR with the standard advertisement, then enable auto-negotiation.
pub open spec fn lan87xx_configure_run<E>(t: Seq<MdioOp<E>>, i: int, phy: u8) -> Option<
    (Result<(), PhyError<E>>, int),
> {
    match read_at(t, i, phy, regs::mcsr::ADDR) {
        None => None,
        Some(Err(e)) => Some((Err(PhyError::Mdio(e)), i + 1)),
        Some(Ok(m)) => match write_at(t, i + 1, phy, regs::mcsr::ADDR, m & !regs::mcsr::EDPD_EN) {
            None => None,
            Some(Err(e)) => Some((Err(PhyError::Mdio(e)), i + 2)),
            Some(Ok(_)) => match write_at(
                t,
                i + 2,
                phy,
                ieee802_3::regs::ANAR,
                standard_advertisement(),
            ) {
                None => None,
                Some(Err(e)) => Some((Err(PhyError::Mdio(e)), i + 3)),
                Some(Ok(_)) => with_phy_error(enable_auto_negotiation_run(t, i + 3, phy)),
            },
        },
    }
}

/// `init`, middle part: read the PHY ID and reject a foreign chip.
pub open spec fn lan87xx_identify_run<E>(t: Seq<MdioOp<E>>, i: int, phy: u8) -> Option<
    (Result<(), PhyError<E>>, int),
> {
    match read_phy_id_run(t, i, phy) {
        None => None,
        Some((Err(e), j)) => Some((Err(PhyError::Mdio(e)), j)),
        Some((Ok(id), j)) => if !is_lan87xx_id(id) {
            Some((Err(PhyError::UnsupportedChip { id }), j))
        } else {
            lan87xx_configure_run(t, j, phy)
        },
    }
}

/// [`PhyLan87xx::init`]: soft reset (timing out after
/// [`SOFT_RESET_ATTEMPTS`] polls), PHY ID check, EDPD off, ANAR =
/// standard advertisement, auto-negotiation on.
pub open spec fn lan87xx_init_run<E>(t: Seq<MdioOp<E>>, i: int, phy: u8) -> Option<
    (Result<(), PhyError<E>>, int),
> {
    match soft_reset_run(t, i, phy, SOFT_RESET_ATTEMPTS) {
        None => None,
        Some((Err(e), j)) => Some((Err(PhyError::Mdio(e)), j)),
        Some((Ok(cleared), j)) => if !cleared {
            Some((Err(PhyError::ResetTimeout), j))
        } else {
            lan87xx_identify_run(t, j, phy)
        },
    }
}

/// The link a forced-mode BMCR value selects: 100 Mbit/s exactly when
/// `SPEED_100` is set, full duplex exactly when `DUPLEX_FULL` is set.
pub open spec fn forced_link(bmcr: u16) -> LinkState {
    link_up_state(
        if bmcr & ieee802_3::bmcr::SPEED_100 != 0 {
            Speed::_100M
        } else {
            Speed::_10M
        },
        if bmcr & ieee802_3::bmcr::DUPLEX_FULL != 0 {
            Duplex::Full
        } else {
            Duplex::Half
        },
    )
}

/// `poll_link` once BMSR reports the link up, given the BMCR value read:
/// with auto-negotiation on, PSCSR, decoded only once `AUTODONE` is set;
/// with it off (forced link), the speed and duplex selects of BMCR.
pub open spec fn lan87xx_link_mode_run<E>(t: Seq<MdioOp<E>>, j: int, phy: u8, bmcr: u16) -> Option<
    (Result<Option<LinkState>, PhyError<E>>, int),
> {
    if bmcr & ieee802_3::bmcr::AN_ENABLE == 0 {
        Some((Ok(Some(forced_link(bmcr))), j))
    } else {
        match read_at(t, j, phy, regs::pscsr::ADDR) {
            None => None,
            Some(Err(e)) => Some((Err(PhyError::Mdio(e)), j + 1)),
            Some(Ok(p)) => if p & regs::pscsr::AUTODONE == 0 {
                Some((Ok(None), j + 1))
            } else {
                Some((Ok(pscsr_link(p)), j + 1))
            },
        }
    }
}

/// [`PhyLan87xx::poll_link`]: BMSR link bit; when up, BMCR, then the link
/// by [`lan87xx_link_mode_run`].
pub open spec fn lan87xx_poll_link_run<E>(t: Seq<MdioOp<E>>, i: int, phy: u8) -> Option<
    (Result<Option<LinkState>, PhyError<E>>, int),
> {
    match is_link_up_run(t, i, phy) {
        None => None,
        Some((Err(e), j)) => Some((Err(PhyError::Mdio(e)), j)),
        Some((Ok(up), j)) => if !up {
            Some((Ok(None), j))
        } else {
            match read_at(t, j, phy, ieee802_3::regs::BMCR) {
                None => None,
                Some(Err(e)) => Some((Err(PhyError::Mdio(e)), j + 1)),
                Some(Ok(bmcr)) => lan87xx_link_mode_run(t, j + 1, phy, bmcr),
            }
        },
    }
}

/// LAN87xx PHY driver (software-only, no reset pin).
pub struct PhyLan87xx {
    addr: u8,
    link_up: bool,
}

impl PhyLan87xx {
    /// The MDIO address the driver talks to.
    pub closed spec fn address(&self) -> u8 {
        self.addr
    }

    /// Whether the last `poll_link` reported a link.
    pub closed spec fn link_flag(&self) -> bool {
        self.link_up
    }

    /// Create a new driver for the PHY at the given MDIO address. The link
    /// starts down.
    pub fn new(addr: u8) -> (r: Self)
        ensures
            r.address() == addr,
            !r.link_flag(),
    {
        Self { addr, link_up: false }
    }

    /// Whether the last `poll_link` reported a link (cleared by `init`).
    pub fn link_up(&self) -> (r: bool)
        ensures
            r == self.link_flag(),
    {
        self.link_up
    }

    /// Decode the PSCSR speed/duplex indication field into a [`LinkState`].
    ///
    /// Returns `None` if the field contains a reserved or unrecognised value.
    pub fn parse_pscsr(pscsr_val: u16) -> (r: Option<LinkState>)
        ensures
            r == pscsr_link(pscsr_val),
    {
        let field = pscsr_val & regs::pscsr::SPEED_DUPLEX_MASK;
        if field == regs::pscsr::SPEED_10_HD {
            Some(LinkState::up(Speed::_10M, Duplex::Half))
        } else if field == regs::pscsr::SPEED_10_FD {
            Some(LinkState::up(Speed::_10M, Duplex::Full))
        } else if field == regs::pscsr::SPEED_100_HD {
            Some(LinkState::up(Speed::_100M, Duplex::Half))
        } else if field == regs::pscsr::SPEED_100_FD {
            Some(LinkState::up(Speed::_100M, Duplex::Full))
        } else {
            None
        }
    }
}

impl PhyDriver for PhyLan87xx {
    fn phy_addr(&self) -> (r: u8)
        ensures
            r == self.address(),
    {
        self.addr
    }

    /// Soft reset, PHY ID check, Energy-Detect Power-Down off, ANAR =
    /// `0x01E1` (cold-boot resets do not always restore it), then
    /// auto-negotiation enabled and restarted.
    fn init<M: MdioBus>(&mut self, mdio: &mut M) -> (r: Result<(), PhyError<M::Error>>)
        ensures
            extends(final(mdio).transcript(), old(mdio).transcript()),
            lan87xx_init_run(
                final(mdio).transcript(),
                old(mdio).transcript().len() as int,
                old(self).address(),
            ) == Some((r, final(mdio).transcript().len() as int)),
            final(self).address() == old(self).address(),
            final(self).link_flag() == (if r is Ok {
                false
            } else {
                old(self).link_flag()
            }),
    {
        let ghost t0 = mdio.transcript();
        let ghost i0 = t0.len() as int;
        let addr = self.addr;
        // 1. Soft reset — check timeout
        let cleared = match ieee802_3::soft_reset(mdio, addr, SOFT_RESET_ATTEMPTS) {
            Ok(c) => c,
            Err(e) => {
                return Err(PhyError::Mdio(e));
            },
        };
        if !cleared {
            return Err(PhyError::ResetTimeout);
        }
        let ghost t1 = mdio.transcript();
        let ghost i1 = t1.len() as int;
        // 2. Verify PHY ID matches LAN87xx family
        let id = match ieee802_3::read_phy_id(mdio, addr) {
            Ok(id) => id,
            Err(e) => {
                proof {
                    ieee802_3::lemma_soft_reset_run_extends(
                        t1,
                        mdio.transcript(),
                        i0,
                        addr,
                        SOFT_RESET_ATTEMPTS,
                    );
                }
                return Err(PhyError::Mdio(e));
            },
        };
        let ghost t2 = mdio.transcript();
        proof {
            ieee802_3::lemma_soft_reset_run_extends(t1, t2, i0, addr, SOFT_RESET_ATTEMPTS);
        }
        if id & regs::PHY_OUI_MASK != regs::PHY_OUI {
            return Err(PhyError::UnsupportedChip { id });
        }
        // 3-5. EDPD off, ANAR programmed, auto-negotiation enabled
        let r = self.configure(mdio);
        proof {
            ieee802_3::lemma_soft_reset_run_extends(
                t2,
                mdio.transcript(),
                i0,
                addr,
                SOFT_RESET_ATTEMPTS,
            );
            ieee802_3::lemma_read_phy_id_run_extends(t2, mdio.transcript(), i1, addr);
        }
        if r.is_ok() {
            self.link_up = false;
        }
        r
    }

    /// BMSR link bit; when up, the BMCR mode decides. With auto-negotiation
    /// on, PSCSR — decoded only once `AUTODONE` is set, since the speed bits
    /// are indeterminate while negotiation converges. With it off (a forced
    /// link, e.g. after `force_link`), speed and duplex come from
    /// `BMCR.SPEED_100` / `BMCR.DUPLEX_FULL`. The driver's link flag follows
    /// the result.
    fn poll_link<M: MdioBus>(&mut self, mdio: &mut M) -> (r: Result<
        Option<LinkState>,
        PhyError<M::Error>,
    >)
        ensures
            extends(final(mdio).transcript(), old(mdio).transcript()),
            lan87xx_poll_link_run(
                final(mdio).transcript(),
                old(mdio).transcript().len() as int,
                old(self).address(),
            ) == Some((r, final(mdio).transcript().len() as int)),
            final(self).address() == old(self).address(),
            final(self).link_flag() == (match r {
                Ok(link) => link is Some,
                Err(_) => old(self).link_flag(),
            }),
    {
        let ghost t0 = mdio.transcript();
        let ghost i0 = t0.len() as int;
        let addr = self.addr;
        let up = match ieee802_3::is_link_up(mdio, addr) {
            Ok(up) => up,
            Err(e) => {
                return Err(PhyError::Mdio(e));
            },
        };
        if !up {
            self.link_up = false;
            return Ok(None);
        }
        let ghost t1 = mdio.transcript();
        let res = mdio.read(addr, ieee802_3::regs::BMCR);
        let ghost t2 = mdio.transcript();
        proof {
            ieee802_3::lemma_is_link_up_run_extends(t1, t2, i0, addr);
        }
        let bmcr = match res {
            Ok(v) => v,
            Err(e) => {
                return Err(PhyError::Mdio(e));
            },
        };
        if bmcr & ieee802_3::bmcr::AN_ENABLE == 0 {
            // Forced link: the speed and duplex selects are the link.
            let speed = if bmcr & ieee802_3::bmcr::SPEED_100 != 0 {
                Speed::_100M
            } else {
                Speed::_10M
            };
            let duplex = if bmcr & ieee802_3::bmcr::DUPLEX_FULL != 0 {
                Duplex::Full
            } else {
                Duplex::Half
            };
            self.link_up = true;
            return Ok(Some(LinkState::up(speed, duplex)));
        }
        let res = mdio.read(addr, regs::pscsr::ADDR);
        proof {
            ieee802_3::lemma_is_link_up_run_extends(t2, mdio.transcript(), i0, addr);
            assert(mdio.transcript()[t1.len() as int] == t2[t1.len() as int]);
        }
        let pscsr = match res {
            Ok(v) => v,
            Err(e) => {
                return Err(PhyError::Mdio(e));
            },
        };
        if pscsr & regs::pscsr::AUTODONE == 0 {
            self.link_up = false;
            return Ok(None);
        }
        let status = Self::parse_pscsr(pscsr);
        self.link_up = status.is_some();
        Ok(status)
    }

    /// The BMSR capability bits.
    fn capabilities<M: MdioBus>(&self, mdio: &mut M) -> (r: Result<
        PhyCapabilities,
        PhyError<M::Error>,
    >)
        ensures
            extends(final(mdio).transcript(), old(mdio).transcript()),
            with_phy_error(
                read_capabilities_run(
                    final(mdio).transcript(),
                    old(mdio).transcript().len() as int,
                    self.address(),
                ),
            ) == Some((r, final(mdio).transcript().len() as int)),
    {
        match ieee802_3::read_capabilities(mdio, self.addr) {
            Ok(c) => Ok(c),
            Err(e) => Err(PhyError::Mdio(e)),
        }
    }

    /// `(PHYIDR1 << 16) | PHYIDR2`.
    fn phy_id<M: MdioBus>(&self, mdio: &mut M) -> (r: Result<u32, PhyError<M::Error>>)
        ensures
            extends(final(mdio).transcript(), old(mdio).transcript()),
            with_phy_error(
                read_phy_id_run(
                    final(mdio).transcript(),
                    old(mdio).transcript().len() as int,
                    self.address(),
                ),
            ) == Some((r, final(mdio).transcript().len() as int)),
    {
        match ieee802_3::read_phy_id(mdio, self.addr) {
            Ok(id) => Ok(id),
            Err(e) => Err(PhyError::Mdio(e)),
        }
    }
}

impl PhyLan87xx {
    /// `init` after identification: EDPD off, ANAR programmed,
    /// auto-negotiation enabled.
    fn configure<M: MdioBus>(&self, mdio: &mut M) -> (r: Result<(), PhyError<M::Error>>)
        ensures
            extends(final(mdio).transcript(), old(mdio).transcript()),
            lan87xx_configure_run(
                final(mdio).transcript(),
                old(mdio).transcript().len() as int,
                self.address(),
            ) == Some((r, final(mdio).transcript().len() as int)),
    {
        let addr = self.addr;
        // 3. Disable Energy Detect Power-Down (EDPD) for reliable link
        //    detection, keeping the other MCSR bits.
        let mcsr = match mdio.read(addr, regs::mcsr::ADDR) {
            Ok(v) => v,
            Err(e) => {
                return Err(PhyError::Mdio(e));
            },
        };
        match mdio.write(addr, regs::mcsr::ADDR, mcsr & !regs::mcsr::EDPD_EN) {
            Ok(()) => {},
            Err(e) => {
                return Err(PhyError::Mdio(e));
            },
        }
        // 4. Advertise standard 10/100 capabilities. A cold-boot soft reset
        //    does not always restore ANAR's default, and auto-negotiation
        //    would then start from a truncated advertisement.
        let anar = anar::TX_FD | anar::TX_HD | anar::T10_FD | anar::T10_HD
            | anar::SELECTOR_IEEE802_3;
        match mdio.write(addr, ieee802_3::regs::ANAR, anar) {
            Ok(()) => {},
            Err(e) => {
                return Err(PhyError::Mdio(e));
            },
        }
        // 5. Enable auto-negotiation
        match ieee802_3::enable_auto_negotiation(mdio, addr) {
            Ok(()) => Ok(()),
            Err(e) => Err(PhyError::Mdio(e)),
        }
    }
}

} // verus!

verus! {

// ── Laws ───────────────────────────────────────────────────────────────

/// The standard advertisement is `0x01E1`.
pub proof fn lemma_standard_advertisement()
    ensures
        standard_advertisement() == 0x01E1,
{
    assert(anar::TX_FD | anar::TX_HD | anar::T10_FD | anar::T10_HD | anar::SELECTOR_IEEE802_3
        == 0x01E1u16) by (bit_vector);
}

/// Disabling Energy-Detect Power-Down clears `EDPD_EN` in the MCSR value
/// written back and keeps every other bit as read.
pub proof fn lemma_edpd_disabled_bits(mcsr: u16)
    ensures
        (mcsr & !regs::mcsr::EDPD_EN) & regs::mcsr::EDPD_EN == 0,
        (mcsr & !regs::mcsr::EDPD_EN) | regs::mcsr::EDPD_EN == mcsr | regs::mcsr::EDPD_EN,
{
    assert((mcsr & !0x4000u16) & 0x4000u16 == 0 && (mcsr & !0x4000u16) | 0x4000u16 == mcsr
        | 0x4000u16) by (bit_vector);
}

/// PSCSR decoding looks at the speed/duplex field only: bits outside it
/// (such as `AUTODONE`) never change the result, and exactly the four
/// documented codes decode to a link.
pub proof fn lemma_pscsr_link_field_only(pscsr: u16)
    ensures
        pscsr_link(pscsr) == pscsr_link(pscsr & regs::pscsr::SPEED_DUPLEX_MASK),
        pscsr_link(pscsr) is Some <==> {
            let field = pscsr & regs::pscsr::SPEED_DUPLEX_MASK;
            ||| field == regs::pscsr::SPEED_10_HD
            ||| field == regs::pscsr::SPEED_10_FD
            ||| field == regs::pscsr::SPEED_100_HD
            ||| field == regs::pscsr::SPEED_100_FD
        },
{
    assert((pscsr & 0x001Cu16) & 0x001Cu16 == pscsr & 0x001Cu16) by (bit_vector);
}

/// `poll_link` reports a link only when BMSR says the link is up, and then
/// either BMCR has auto-negotiation off and the link is its forced speed and
/// duplex, or auto-negotiation is on, PSCSR says it is done, and the link is
/// the decoded PSCSR field.
pub proof fn lemma_lan87xx_link_needs_autodone<E>(t: Seq<MdioOp<E>>, i: int, phy: u8)
    requires
        lan87xx_poll_link_run(t, i, phy) matches Some((Ok(Some(_)), _)),
    ensures
        ({
            let (r, j) = lan87xx_poll_link_run(t, i, phy).unwrap();
            &&& read_at(t, i, phy, ieee802_3::regs::BMSR) matches Some(Ok(bmsr))
                && bmsr & ieee802_3::bmsr::LINK_STATUS != 0
            &&& read_at(t, i + 1, phy, ieee802_3::regs::BMCR) matches Some(Ok(bmcr)) && (if bmcr
                & ieee802_3::bmcr::AN_ENABLE == 0 {
                j == i + 2 && r == Ok::<_, PhyError<E>>(Some(forced_link(bmcr)))
            } else {
                j == i + 3 && (read_at(t, i + 2, phy, regs::pscsr::ADDR) matches Some(Ok(p)) && p
                    & regs::pscsr::AUTODONE != 0 && r == Ok::<_, PhyError<E>>(pscsr_link(p)))
            })
        }),
{
}

/// After `force_link` has written BMCR, `poll_link` reading that value back
/// (with the link up) reports exactly the speed and duplex that were forced,
/// without touching PSCSR.
pub proof fn lemma_forced_link_round_trip(bmcr: u16, speed: Speed, duplex: Duplex)
    ensures
        ieee802_3::forced_bmcr(bmcr, speed, duplex) & ieee802_3::bmcr::AN_ENABLE == 0,
        forced_link(ieee802_3::forced_bmcr(bmcr, speed, duplex)) == link_up_state(speed, duplex),
{
    ieee802_3::lemma_forced_bmcr_bits(bmcr, speed, duplex);
}

/// A BMCR write at position `k` of `t` that enables or restarts
/// auto-negotiation.
pub open spec fn starts_auto_negotiation<E>(t: Seq<MdioOp<E>>, k: int, phy: u8) -> bool {
    match t[k] {
        MdioOp::Write { phy: p, reg, value, result: _ } => p == phy && reg == ieee802_3::regs::BMCR
            && value & (ieee802_3::bmcr::AN_ENABLE | ieee802_3::bmcr::AN_RESTART) != 0,
        _ => false,
    }
}

/// A successful `init` begins with the BMCR reset write and ends by writing
/// ANAR = `0x01E1` and then BMCR with `AN_ENABLE` and `AN_RESTART` set; no
/// BMCR write before the ANAR write starts auto-negotiation, so negotiation
/// never runs against a stale advertisement.
pub proof fn lemma_lan87xx_init_advertises_first<E>(t: Seq<MdioOp<E>>, i: int, phy: u8)
    requires
        lan87xx_init_run(t, i, phy) matches Some((Ok(_), _)),
    ensures
        ({
            let j = lan87xx_init_run(t, i, phy).unwrap().1;
            &&& i + 9 <= j
            &&& write_at(t, i, phy, ieee802_3::regs::BMCR, ieee802_3::bmcr::RESET) is Some
            &&& write_at(t, j - 3, phy, ieee802_3::regs::ANAR, 0x01E1) is Some
            &&& starts_auto_negotiation(t, j - 1, phy)
            &&& forall|k: int| i <= k < j - 3 ==> !#[trigger] starts_auto_negotiation(t, k, phy)
        }),
{
    lemma_standard_advertisement();
    let polls = soft_reset_run(t, i, phy, SOFT_RESET_ATTEMPTS).unwrap();
    let k0 = polls.1;
    ieee802_3::lemma_reset_poll_outcome(t, i + 1, phy, SOFT_RESET_ATTEMPTS as nat);
    let j = lan87xx_init_run(t, i, phy).unwrap().1;
    assert(k0 + 7 == j);
    if let Some(Ok(v)) = read_at(t, k0 + 5, phy, ieee802_3::regs::BMCR) {
        ieee802_3::lemma_an_enabled_bmcr_bits(v);
        let w = ieee802_3::an_enabled_bmcr(v);
        assert(w & 0x1000u16 != 0 ==> w & (0x1000u16 | 0x0200u16) != 0) by (bit_vector);
        assert(ieee802_3::bmcr::AN_ENABLE | ieee802_3::bmcr::AN_RESTART == 0x1000u16 | 0x0200u16);
    }
    assert(0x8000u16 & (0x1000u16 | 0x0200u16) == 0) by (bit_vector);
    assert forall|k: int| i <= k < j - 3 implies !#[trigger] starts_auto_negotiation(t, k, phy) by {
        if i + 1 <= k < k0 {
            assert(read_at(t, k, phy, ieee802_3::regs::BMCR) is Some);
        }
    }
}

} // verus!

verus! {

/// Every transaction of `init` and of `poll_link` goes to the driver's own
/// PHY address.
pub proof fn lemma_lan87xx_runs_addressed<E>(t: Seq<MdioOp<E>>, i: int, phy: u8)
    ensures
        lan87xx_init_run(t, i, phy) is Some ==> addressed_to(
            t,
            i,
            lan87xx_init_run(t, i, phy).unwrap().1,
            phy,
        ),
        lan87xx_poll_link_run(t, i, phy) is Some ==> addressed_to(
            t,
            i,
            lan87xx_poll_link_run(t, i, phy).unwrap().1,
            phy,
        ),
{
    let status = crate::types::link_down_state();
    ieee802_3::lemma_runs_addressed(t, i, phy, SOFT_RESET_ATTEMPTS, status);
    if let Some((Ok(true), j0)) = soft_reset_run(t, i, phy, SOFT_RESET_ATTEMPTS) {
        ieee802_3::lemma_runs_addressed(t, j0, phy, SOFT_RESET_ATTEMPTS, status);
        if let Some((r1, j1)) = read_phy_id_run(t, j0, phy) {
            crate::mdio::lemma_addressed_to_join(t, i, j0, j1, phy);
            if let Ok(id) = r1 {
                if is_lan87xx_id(id) {
                    if let Some(rm) = read_at(t, j1, phy, regs::mcsr::ADDR) {
                        assert(op_phy(t[j1]) == phy);
                        crate::mdio::lemma_addressed_to_join(t, i, j1, j1 + 1, phy);
                        if let Ok(m) = rm {
                            let mcsr = m & !regs::mcsr::EDPD_EN;
                            if let Some(rw) = write_at(t, j1 + 1, phy, regs::mcsr::ADDR, mcsr) {
                                assert(op_phy(t[j1 + 1]) == phy);
                                crate::mdio::lemma_addressed_to_join(t, i, j1 + 1, j1 + 2, phy);
                                let anar = standard_advertisement();
                                if rw is Ok {
                                    if let Some(ra) = write_at(
                                        t,
                                        j1 + 2,
                                        phy,
                                        ieee802_3::regs::ANAR,
                                        anar,
                                    ) {
                                        assert(op_phy(t[j1 + 2]) == phy);
                                        crate::mdio::lemma_addressed_to_join(
                                            t,
                                            i,
                                            j1 + 2,
                                            j1 + 3,
                                            phy,
                                        );
                                        if ra is Ok {
                                            ieee802_3::lemma_runs_addressed(
                                                t,
                                                j1 + 3,
                                                phy,
                                                SOFT_RESET_ATTEMPTS,
                                                status,
                                            );
                                            if let Some((_, j2)) = enable_auto_negotiation_run(
                                                t,
                                                j1 + 3,
                                                phy,
                                            ) {
                                                crate::mdio::lemma_addressed_to_join(
                                                    t,
                                                    i,
                                                    j1 + 3,
                                                    j2,
                                                    phy,
                                                );
                                            }
                                        }
                                    }
                                }
                            }
                        }
                    }
                }
            }
        }
    }
    if let Some((Ok(true), j)) = is_link_up_run(t, i, phy) {
        if read_at(t, j, phy, ieee802_3::regs::BMCR) is Some {
            assert(op_phy(t[j]) == phy);
            crate::mdio::lemma_addressed_to_join(t, i, j, j + 1, phy);
            if read_at(t, j + 1, phy, regs::pscsr::ADDR) is Some {
                assert(op_phy(t[j + 1]) == phy);
                crate::mdio::lemma_addressed_to_join(t, i, j + 1, j + 2, phy);
            }
        }
    }
}

} // verus!

verus! {

/// `init`'s chip check takes the whole LAN87xx family: once the soft reset
/// has completed and the PHY ID reads `id`, `init` refuses the chip with
/// `UnsupportedChip { id }` exactly when the OUI part of the ID
/// (`id & 0xFFFF_FC00`) is not `0x0007_C000`. Model and revision bits
/// never matter, so LAN8710A/8720A (`0x0007_C0Fx`) and LAN8740A/8741A/8742A
/// (`0x0007_C1xx`) alike go on to the configuration steps.
pub proof fn lemma_lan87xx_init_accepts_family<E>(
    t: Seq<MdioOp<E>>,
    i: int,
    phy: u8,
    j: int,
    id: u32,
    k: int,
)
    requires
        soft_reset_run(t, i, phy, SOFT_RESET_ATTEMPTS) == Some((Ok::<bool, E>(true), j)),
        read_phy_id_run(t, j, phy) == Some((Ok::<u32, E>(id), k)),
    ensures
        (lan87xx_init_run(t, i, phy) == Some(
            (Err::<(), PhyError<E>>(PhyError::UnsupportedChip { id }), k),
        )) <==> id & 0xFFFF_FC00u32 != 0x0007_C000u32,
        id & 0xFFFF_FC00u32 == 0x0007_C000u32 ==> lan87xx_init_run(t, i, phy)
            == lan87xx_configure_run(t, k, phy),
{
    let r = lan87xx_configure_run(t, k, phy);
    if let Some((Err(e), _)) = r {
        assert(e is Mdio);
    }
}

} // verus!

verus! {

/// The link `poll_link` reads off a PSCSR value once `AUTODONE` is set:
/// bits 4:2 `001` is 10 Mbit/s half duplex, `101` 10 full, `010` 100 half,
/// `110` 100 full; any other code is no link.
pub open spec fn pscsr_code_link(p: u16) -> Option<LinkState> {
    let code = (p >> 2u16) & 0x7u16;
    if code == 1 {
        Some(link_up_state(Speed::_10M, Duplex::Half))
    } else if code == 5 {
        Some(link_up_state(Speed::_10M, Duplex::Full))
    } else if code == 2 {
        Some(link_up_state(Speed::_100M, Duplex::Half))
    } else if code == 6 {
        Some(link_up_state(Speed::_100M, Duplex::Full))
    } else {
        None
    }
}

/// What `poll_link` reports, register by register: BMSR (register 1) bit 2
/// down is no link after that one read. Up, BMCR (register 0) is read:
/// with bit 12 (`AN_ENABLE`) clear the link is the forced one — 100 Mbit/s
/// exactly when bit 13 is set, full duplex exactly when bit 8 is set — and
/// nothing more is read; with it set, PSCSR (register 31) is read and the
/// link is no link while bit 12 (`AUTODONE`) is clear, else the speed and
/// duplex code of bits 4:2.
pub proof fn lemma_lan87xx_poll_link_registers<E>(
    t: Seq<MdioOp<E>>,
    i: int,
    phy: u8,
    bmsr: u16,
    bmcr: u16,
    pscsr: u16,
)
    requires
        read_at(t, i, phy, 1u8) == Some(Ok::<u16, E>(bmsr)),
    ensures
        bmsr & 0x0004u16 == 0 ==> lan87xx_poll_link_run(t, i, phy) == Some(
            (Ok::<_, PhyError<E>>(None::<LinkState>), i + 1),
        ),
        bmsr & 0x0004u16 != 0 && read_at(t, i + 1, phy, 0u8) == Some(Ok::<u16, E>(bmcr)) && bmcr
            & 0x1000u16 == 0 ==> lan87xx_poll_link_run(t, i, phy) == Some(
            (
                Ok::<_, PhyError<E>>(
                    Some(
                        link_up_state(
                            if bmcr & 0x2000u16 != 0 {
                                Speed::_100M
                            } else {
                                Speed::_10M
                            },
                            if bmcr & 0x0100u16 != 0 {
                                Duplex::Full
                            } else {
                                Duplex::Half
                            },
                        ),
                    ),
                ),
                i + 2,
            ),
        ),
        bmsr & 0x0004u16 != 0 && read_at(t, i + 1, phy, 0u8) == Some(Ok::<u16, E>(bmcr)) && bmcr
            & 0x1000u16 != 0 && read_at(t, i + 2, phy, 31u8) == Some(Ok::<u16, E>(pscsr))
            ==> lan87xx_poll_link_run(t, i, phy) == Some(
            (
                Ok::<_, PhyError<E>>(
                    if pscsr & 0x1000u16 == 0 {
                        None
                    } else {
                        pscsr_code_link(pscsr)
                    },
                ),
                i + 3,
            ),
        ),
{
    let f = pscsr & 0x001Cu16;
    let code = (pscsr >> 2u16) & 0x7u16;
    assert((f == 0x0004u16 <==> code == 1) && (f == 0x0014u16 <==> code == 5) && (f == 0x0008u16
        <==> code == 2) && (f == 0x0018u16 <==> code == 6)) by (bit_vector)
        requires
            f == pscsr & 0x001Cu16,
            code == (pscsr >> 2u16) & 0x7u16,
    ;
}

/// `init`'s configuration steps, once MCSR (register 17) reads `m`: MCSR is
/// written back with bit 14 (`EDPD_EN`) cleared and every other bit as
/// read, then ANAR (register 4) is written with `0x01E1`, then
/// auto-negotiation is enabled and restarted.
pub proof fn lemma_lan87xx_configure_writes<E>(t: Seq<MdioOp<E>>, k: int, phy: u8, m: u16)
    requires
        read_at(t, k, phy, 17u8) == Some(Ok::<u16, E>(m)),
        lan87xx_configure_run(t, k, phy) matches Some((Ok(_), _)),
    ensures
        t[k + 1] matches MdioOp::Write { phy: p, reg, value: w, result: _ } && p == phy && reg
            == 17u8 && w & 0x4000u16 == 0 && w & 0xBFFFu16 == m & 0xBFFFu16,
        write_at(t, k + 2, phy, 4u8, 0x01E1u16) matches Some(Ok(_)),
        lan87xx_configure_run(t, k, phy) == with_phy_error(
            enable_auto_negotiation_run(t, k + 3, phy),
        ),
{
    lemma_standard_advertisement();
    let w = m & !regs::mcsr::EDPD_EN;
    assert(write_at(t, k + 1, phy, 17u8, w) matches Some(Ok(_)));
    assert(write_at(t, k + 2, phy, 4u8, standard_advertisement()) matches Some(Ok(_)));
    assert((m & !0x4000u16) & 0x4000u16 == 0 && (m & !0x4000u16) & 0xBFFFu16 == m & 0xBFFFu16)
        by (bit_vector);
}

} // verus!

verus! {

/// `init` waits for the soft reset through 500 BMCR polls: it reports
/// `ResetTimeout` exactly when the reset write succeeded and 500 polls in a
/// row (ending the run) saw bit 15 still set; a reset that completes goes
/// on to identification.
pub proof fn lemma_lan87xx_init_reset_timeout<E>(t: Seq<MdioOp<E>>, i: int, phy: u8)
    ensures
        lan87xx_init_run(t, i, phy) matches Some((Err(PhyError::ResetTimeout), j)) ==> {
            &&& j == i + 501
            &&& write_at(t, i, phy, 0u8, 0x8000u16) matches Some(Ok(_))
            &&& forall|k: int|
                i + 1 <= k < j ==> (#[trigger] read_at(t, k, phy, 0u8) matches Some(Ok(v)) && v
                    & 0x8000u16 != 0)
        },
        (write_at(t, i, phy, 0u8, 0x8000u16) matches Some(Ok(_)) && forall|k: int|
            i + 1 <= k < i + 501 ==> (#[trigger] read_at(t, k, phy, 0u8) matches Some(Ok(v)) && v
                & 0x8000u16 != 0)) ==> lan87xx_init_run(t, i, phy) == Some(
            (Err::<(), PhyError<E>>(PhyError::ResetTimeout), i + 501),
        ),
        soft_reset_run(t, i, phy, 500u32) matches Some((Ok(true), j)) ==> lan87xx_init_run(t, i, phy)
            == lan87xx_identify_run(t, j, phy),
{
    if let Some((Ok(false), j)) = soft_reset_run(t, i, phy, SOFT_RESET_ATTEMPTS) {
        ieee802_3::lemma_reset_poll_bit15(t, i + 1, phy, 500);
    }
    if write_at(t, i, phy, 0u8, 0x8000u16) matches Some(Ok(_)) && forall|k: int|
        i + 1 <= k < i + 501 ==> (#[trigger] read_at(t, k, phy, 0u8) matches Some(Ok(v)) && v
            & 0x8000u16 != 0) {
        ieee802_3::lemma_reset_poll_gives_up(t, i + 1, phy, 500);
    }
}

} // verus!
