use eth_phy::ieee802_3::{anar, bmcr, bmsr};
use eth_phy::lan87xx::{regs, PhyLan87xx};
use eth_phy::mock::{MockError, MockMdio};
use eth_phy::{Duplex, LinkState, PhyDriver, PhyError, Speed};


// ── Constructor tests ──────────────────────────────────────────────────

#[test]
fn new_sets_address() {
    let phy = PhyLan87xx::new(3);
    assert_eq!(phy.phy_addr(), 3);
}

#[test]
fn new_link_starts_down() {
    let phy = PhyLan87xx::new(0);
    assert!(!phy.link_up());
}

// ── init tests ─────────────────────────────────────────────────────────

#[test]
fn init_success() {
    let mut mdio = MockMdio::new(vec![
        0x0000,              // soft_reset poll → cleared
        0x0007,              // PHYIDR1
        0xC0F0,              // PHYIDR2
        regs::mcsr::EDPD_EN, // MCSR with EDPD set
        0x0000,              // BMCR for enable_auto_negotiation
    ]);
    let mut phy = PhyLan87xx::new(1);
    phy.init(&mut mdio).unwrap();
}

#[test]
fn init_rejects_wrong_phy_id() {
    let mut mdio = MockMdio::new(vec![
        0x0000, // soft_reset poll → cleared
        0x0022, // PHYIDR1 (wrong)
        0x1619, // PHYIDR2 (wrong)
    ]);
    let mut phy = PhyLan87xx::new(1);
    let err = phy.init(&mut mdio).unwrap_err();
    match err {
        PhyError::UnsupportedChip { id } => assert_eq!(id, 0x0022_1619),
        _ => panic!("expected UnsupportedChip, got {:?}", err),
    }
}

#[test]
fn init_reset_timeout() {
    let mut mdio = MockMdio::new(vec![bmcr::RESET; 1000]);
    let mut phy = PhyLan87xx::new(1);
    let err = phy.init(&mut mdio).unwrap_err();
    match err {
        PhyError::ResetTimeout => {}
        _ => panic!("expected ResetTimeout, got {:?}", err),
    }
}

#[test]
fn init_writes_anar_standard_advertisement() {
    let mut mdio = MockMdio::new(vec![
        0x0000,              // soft_reset poll
        0x0007,              // PHYIDR1
        0xC0F0,              // PHYIDR2
        regs::mcsr::EDPD_EN, // MCSR
        0x0000,              // BMCR for enable_auto_negotiation
    ]);
    let mut phy = PhyLan87xx::new(1);
    phy.init(&mut mdio).unwrap();

    let anar_idx = mdio
        .writes
        .iter()
        .position(|&(_, reg, _)| reg == eth_phy::ieee802_3::regs::ANAR)
        .expect("expected a write to ANAR");
    let expected = anar::TX_FD | anar::TX_HD | anar::T10_FD | anar::T10_HD | anar::SELECTOR_IEEE802_3;
    assert_eq!(
        mdio.writes[anar_idx].2, expected,
        "ANAR must advertise standard 10/100 full+half + 802.3 selector"
    );

    let bmcr_an_idx = mdio
        .writes
        .iter()
        .rposition(|&(_, reg, val)| {
            reg == eth_phy::ieee802_3::regs::BMCR
                && (val & (bmcr::AN_ENABLE | bmcr::AN_RESTART)) != 0
        })
        .expect("expected a BMCR write that enables/restarts auto-neg");
    assert!(
        anar_idx < bmcr_an_idx,
        "ANAR (write #{anar_idx}) must be programmed BEFORE BMCR.AN_ENABLE/AN_RESTART (write #{bmcr_an_idx})",
    );

    let pre_anar_an_restart = mdio.writes[..anar_idx].iter().any(|&(_, reg, val)| {
        reg == eth_phy::ieee802_3::regs::BMCR
            && (val & (bmcr::AN_ENABLE | bmcr::AN_RESTART)) != 0
    });
    assert!(
        !pre_anar_an_restart,
        "BMCR.AN_ENABLE/AN_RESTART must not be issued before the ANAR write",
    );
}

#[test]
fn init_disables_edpd() {
    let mcsr_initial: u16 = regs::mcsr::EDPD_EN | regs::mcsr::ENERGYON;
    let mut mdio = MockMdio::new(vec![
        0x0000,       // soft_reset poll
        0x0007,       // PHYIDR1
        0xC0F0,       // PHYIDR2
        mcsr_initial, // MCSR read
        0x0000,       // BMCR for enable_auto_negotiation
    ]);
    let mut phy = PhyLan87xx::new(1);
    phy.init(&mut mdio).unwrap();

    let mcsr_write = mdio
        .writes
        .iter()
        .find(|&&(_, reg, _)| reg == regs::mcsr::ADDR)
        .expect("expected a write to MCSR");
    assert_eq!(mcsr_write.2 & regs::mcsr::EDPD_EN, 0, "EDPD_EN should be cleared");
    assert_ne!(mcsr_write.2 & regs::mcsr::ENERGYON, 0, "other MCSR bits should be preserved");
}

#[test]
fn init_mdio_error_propagates() {
    let mut mdio = MockMdio::with_failure(vec![], 0);
    let mut phy = PhyLan87xx::new(1);
    let err = phy.init(&mut mdio).unwrap_err();
    match err {
        PhyError::Mdio(MockError) => {}
        _ => panic!("expected Mdio error, got {:?}", err),
    }
}

#[test]
fn init_exact_write_sequence() {
    let mut mdio = MockMdio::new(vec![0x0000, 0x0007, 0xC0F0, regs::mcsr::EDPD_EN, 0x0000]);
    let mut phy = PhyLan87xx::new(2);
    phy.init(&mut mdio).unwrap();
    assert_eq!(
        mdio.writes,
        vec![
            (2, eth_phy::ieee802_3::regs::BMCR, bmcr::RESET),
            (2, regs::mcsr::ADDR, 0x0000),
            (2, eth_phy::ieee802_3::regs::ANAR, 0x01E1),
            (2, eth_phy::ieee802_3::regs::BMCR, bmcr::AN_ENABLE | bmcr::AN_RESTART),
        ]
    );
    assert!(!phy.link_up());
}

#[test]
fn init_clears_link_flag() {
    let mut phy = PhyLan87xx::new(1);
    // BMCR answer added: auto-negotiation on, as `init` leaves it.
    let mut up = MockMdio::new(vec![bmsr::LINK_STATUS, bmcr::AN_ENABLE, regs::pscsr::AUTODONE | regs::pscsr::SPEED_10_FD]);
    phy.poll_link(&mut up).unwrap();
    assert!(phy.link_up());
    let mut mdio = MockMdio::new(vec![0x0000, 0x0007, 0xC0F0, 0x0000, 0x0000]);
    phy.init(&mut mdio).unwrap();
    assert!(!phy.link_up());
}

// ── poll_link tests ────────────────────────────────────────────────────

#[test]
fn poll_link_down() {
    let mut mdio = MockMdio::new(vec![0x0000]);
    let mut phy = PhyLan87xx::new(1);
    let result = phy.poll_link(&mut mdio).unwrap();
    assert!(result.is_none());
    assert!(!phy.link_up());
}

#[test]
fn poll_link_100_full() {
    let mut mdio = MockMdio::new(vec![
        bmsr::LINK_STATUS,
        bmcr::AN_ENABLE, // BMCR: auto-negotiation on, as `init` leaves it (poll_link reads BMCR to pick the mode)
        regs::pscsr::AUTODONE | regs::pscsr::SPEED_100_FD,
    ]);
    let mut phy = PhyLan87xx::new(1);
    let result = phy.poll_link(&mut mdio).unwrap();
    assert_eq!(result, Some(LinkState::up(Speed::_100M, Duplex::Full)));
    assert!(phy.link_up());
}

#[test]
fn poll_link_10_half() {
    let mut mdio = MockMdio::new(vec![
        bmsr::LINK_STATUS,
        bmcr::AN_ENABLE, // BMCR: auto-negotiation on, as `init` leaves it (poll_link reads BMCR to pick the mode)
        regs::pscsr::AUTODONE | regs::pscsr::SPEED_10_HD,
    ]);
    let mut phy = PhyLan87xx::new(1);
    let result = phy.poll_link(&mut mdio).unwrap();
    assert_eq!(result, Some(LinkState::up(Speed::_10M, Duplex::Half)));
}

#[test]
fn poll_link_100_half() {
    let mut mdio = MockMdio::new(vec![
        bmsr::LINK_STATUS,
        bmcr::AN_ENABLE, // BMCR: auto-negotiation on, as `init` leaves it (poll_link reads BMCR to pick the mode)
        regs::pscsr::AUTODONE | regs::pscsr::SPEED_100_HD,
    ]);
    let mut phy = PhyLan87xx::new(1);
    let result = phy.poll_link(&mut mdio).unwrap();
    assert_eq!(result, Some(LinkState::up(Speed::_100M, Duplex::Half)));
}

#[test]
fn poll_link_10_full() {
    let mut mdio = MockMdio::new(vec![
        bmsr::LINK_STATUS,
        bmcr::AN_ENABLE, // BMCR: auto-negotiation on, as `init` leaves it (poll_link reads BMCR to pick the mode)
        regs::pscsr::AUTODONE | regs::pscsr::SPEED_10_FD,
    ]);
    let mut phy = PhyLan87xx::new(1);
    let result = phy.poll_link(&mut mdio).unwrap();
    assert_eq!(result, Some(LinkState::up(Speed::_10M, Duplex::Full)));
}

#[test]
fn poll_link_unknown_speed_returns_none() {
    // BMCR answer added: auto-negotiation on, as `init` leaves it.
    let mut mdio = MockMdio::new(vec![bmsr::LINK_STATUS, bmcr::AN_ENABLE, regs::pscsr::AUTODONE]);
    let mut phy = PhyLan87xx::new(1);
    let result = phy.poll_link(&mut mdio).unwrap();
    assert!(result.is_none());
    assert!(!phy.link_up());
}

#[test]
fn poll_link_returns_none_when_autodone_clear() {
    // BMCR answer added: auto-negotiation on, as `init` leaves it.
    let mut mdio = MockMdio::new(vec![bmsr::LINK_STATUS, bmcr::AN_ENABLE, regs::pscsr::SPEED_100_FD]);
    let mut phy = PhyLan87xx::new(1);
    let result = phy.poll_link(&mut mdio).unwrap();
    assert!(result.is_none(), "must wait for AUTODONE before decoding speed");
    assert!(!phy.link_up());
}

#[test]
fn poll_link_mdio_error() {
    let mut mdio = MockMdio::with_failure(vec![], 0);
    let mut phy = PhyLan87xx::new(1);
    let err = phy.poll_link(&mut mdio).unwrap_err();
    match err {
        PhyError::Mdio(MockError) => {}
        _ => panic!("expected Mdio error"),
    }
}

#[test]
fn poll_link_pscsr_error_keeps_link_flag() {
    let mut phy = PhyLan87xx::new(1);
    // BMCR answers added (auto-negotiation on, as `init` leaves it), so the
    // failure at the third transaction hits the PSCSR read.
    let mut up = MockMdio::new(vec![bmsr::LINK_STATUS, bmcr::AN_ENABLE, regs::pscsr::AUTODONE | regs::pscsr::SPEED_100_FD]);
    phy.poll_link(&mut up).unwrap();
    let mut mdio = MockMdio::with_failure(vec![bmsr::LINK_STATUS, bmcr::AN_ENABLE], 2);
    assert!(matches!(phy.poll_link(&mut mdio), Err(PhyError::Mdio(MockError))));
    assert!(phy.link_up());
}

// ── capabilities tests ─────────────────────────────────────────────────

#[test]
fn capabilities_reads_bmsr() {
    let bmsr_val = bmsr::TX_FD_CAPABLE
        | bmsr::TX_HD_CAPABLE
        | bmsr::T10_FD_CAPABLE
        | bmsr::T10_HD_CAPABLE
        | bmsr::AN_ABILITY;
    let mut mdio = MockMdio::new(vec![bmsr_val]);
    let phy = PhyLan87xx::new(1);
    let caps = phy.capabilities(&mut mdio).unwrap();
    assert!(caps.speed_100_fd);
    assert!(caps.speed_100_hd);
    assert!(caps.speed_10_fd);
    assert!(caps.speed_10_hd);
    assert!(caps.auto_negotiation);
}

#[test]
fn capabilities_mdio_error() {
    let mut mdio = MockMdio::with_failure(vec![], 0);
    let phy = PhyLan87xx::new(1);
    assert!(matches!(phy.capabilities(&mut mdio), Err(PhyError::Mdio(MockError))));
}

// ── phy_id tests ───────────────────────────────────────────────────────

#[test]
fn phy_id_reads_registers() {
    let mut mdio = MockMdio::new(vec![0x0007, 0xC0F0]);
    let phy = PhyLan87xx::new(1);
    let id = phy.phy_id(&mut mdio).unwrap();
    assert_eq!(id, 0x0007_C0F0);
}

// ── parse_pscsr tests ──────────────────────────────────────────────────

#[test]
fn parse_pscsr_all_modes() {
    assert_eq!(
        PhyLan87xx::parse_pscsr(regs::pscsr::SPEED_10_HD),
        Some(LinkState::up(Speed::_10M, Duplex::Half))
    );
    assert_eq!(
        PhyLan87xx::parse_pscsr(regs::pscsr::SPEED_10_FD),
        Some(LinkState::up(Speed::_10M, Duplex::Full))
    );
    assert_eq!(
        PhyLan87xx::parse_pscsr(regs::pscsr::SPEED_100_HD),
        Some(LinkState::up(Speed::_100M, Duplex::Half))
    );
    assert_eq!(
        PhyLan87xx::parse_pscsr(regs::pscsr::SPEED_100_FD),
        Some(LinkState::up(Speed::_100M, Duplex::Full))
    );
    assert_eq!(PhyLan87xx::parse_pscsr(0x0000), None);
}

#[test]
fn parse_pscsr_ignores_other_bits() {
    let val = regs::pscsr::SPEED_100_FD | regs::pscsr::AUTODONE | 0x0003 | 0x8000;
    assert_eq!(
        PhyLan87xx::parse_pscsr(val),
        Some(LinkState::up(Speed::_100M, Duplex::Full))
    );
}

#[test]
fn parse_pscsr_reserved_codes() {
    for code in [0b000u16, 0b011, 0b100, 0b111] {
        assert_eq!(PhyLan87xx::parse_pscsr(code << 2), None);
    }
}

// ── forced-link mode ───────────────────────────────────────────────────

#[test]
fn poll_link_forced_100_full_from_bmcr() {
    // As after force_link(Speed::_100M, Duplex::Full): AN_ENABLE clear,
    // SPEED_100 | DUPLEX_FULL set. PSCSR is not consulted.
    let mut mdio = MockMdio::new(vec![bmsr::LINK_STATUS, 0x2100]);
    let mut phy = PhyLan87xx::new(1);
    let result = phy.poll_link(&mut mdio).unwrap();
    assert_eq!(result, Some(LinkState::up(Speed::_100M, Duplex::Full)));
    assert!(phy.link_up());
    assert_eq!(mdio.read_idx, 2);
}

#[test]
fn poll_link_forced_10_half_from_bmcr() {
    let mut mdio = MockMdio::new(vec![bmsr::LINK_STATUS, bmcr::LOOPBACK]);
    let mut phy = PhyLan87xx::new(1);
    let result = phy.poll_link(&mut mdio).unwrap();
    assert_eq!(result, Some(LinkState::up(Speed::_10M, Duplex::Half)));
}

#[test]
fn force_link_then_poll_link_reports_forced_mode() {
    let mut phy = PhyLan87xx::new(1);
    let mut mdio = MockMdio::new(vec![bmcr::AN_ENABLE | bmcr::AN_RESTART]);
    eth_phy::ieee802_3::force_link(&mut mdio, 1, LinkState::up(Speed::_10M, Duplex::Full)).unwrap();
    let forced = mdio.writes[0].2;
    let mut poll = MockMdio::new(vec![bmsr::LINK_STATUS, forced]);
    assert_eq!(phy.poll_link(&mut poll).unwrap(), Some(LinkState::up(Speed::_10M, Duplex::Full)));
}

#[test]
fn poll_link_bmcr_error() {
    let mut mdio = MockMdio::with_failure(vec![bmsr::LINK_STATUS], 1);
    let mut phy = PhyLan87xx::new(1);
    assert!(matches!(phy.poll_link(&mut mdio), Err(PhyError::Mdio(MockError))));
}
