use eth_phy::ieee802_3::{
    bmcr, bmsr, enable_auto_negotiation, force_link, is_link_up, read_capabilities, read_phy_id,
    regs, soft_reset,
};
use eth_phy::mock::MockMdio;
use eth_phy::{Duplex, LinkState, Speed};


// ── Register constant tests ────────────────────────────────────────────

#[test]
fn bmcr_bit_positions() {
    assert_eq!(bmcr::RESET, 0x8000);
    assert_eq!(bmcr::LOOPBACK, 0x4000);
    assert_eq!(bmcr::SPEED_100, 0x2000);
    assert_eq!(bmcr::AN_ENABLE, 0x1000);
    assert_eq!(bmcr::POWER_DOWN, 0x0800);
    assert_eq!(bmcr::ISOLATE, 0x0400);
    assert_eq!(bmcr::AN_RESTART, 0x0200);
    assert_eq!(bmcr::DUPLEX_FULL, 0x0100);
}

#[test]
fn bmcr_bits_are_distinct() {
    let all = bmcr::RESET
        | bmcr::LOOPBACK
        | bmcr::SPEED_100
        | bmcr::AN_ENABLE
        | bmcr::POWER_DOWN
        | bmcr::ISOLATE
        | bmcr::AN_RESTART
        | bmcr::DUPLEX_FULL;
    assert_eq!(all.count_ones(), 8);
}

#[test]
fn bmsr_bit_positions() {
    assert_eq!(bmsr::T4_CAPABLE, 0x8000);
    assert_eq!(bmsr::TX_FD_CAPABLE, 0x4000);
    assert_eq!(bmsr::TX_HD_CAPABLE, 0x2000);
    assert_eq!(bmsr::T10_FD_CAPABLE, 0x1000);
    assert_eq!(bmsr::T10_HD_CAPABLE, 0x0800);
    assert_eq!(bmsr::AN_COMPLETE, 0x0020);
    assert_eq!(bmsr::REMOTE_FAULT, 0x0010);
    assert_eq!(bmsr::AN_ABILITY, 0x0008);
    assert_eq!(bmsr::LINK_STATUS, 0x0004);
    assert_eq!(bmsr::JABBER_DETECT, 0x0002);
    assert_eq!(bmsr::EXT_CAPABLE, 0x0001);
}

#[test]
fn reg_addresses() {
    assert_eq!(regs::BMCR, 0);
    assert_eq!(regs::BMSR, 1);
    assert_eq!(regs::PHYIDR1, 2);
    assert_eq!(regs::PHYIDR2, 3);
    assert_eq!(regs::ANAR, 4);
    assert_eq!(regs::ANLPAR, 5);
    assert_eq!(regs::ANER, 6);
}

// ── soft_reset tests ───────────────────────────────────────────────────

#[test]
fn soft_reset_clears_immediately() {
    let mut mdio = MockMdio::new(vec![0x0000]);
    let result = soft_reset(&mut mdio, 1, 10);
    assert!(result.unwrap());
    assert_eq!(mdio.writes.len(), 1);
    assert_eq!(mdio.writes[0], (1, regs::BMCR, bmcr::RESET));
    assert_eq!(mdio.read_idx, 1);
}

#[test]
fn soft_reset_polls_until_cleared() {
    let mut mdio = MockMdio::new(vec![bmcr::RESET, bmcr::RESET, bmcr::RESET, 0x0000]);
    let result = soft_reset(&mut mdio, 1, 10);
    assert!(result.unwrap());
    assert_eq!(mdio.read_idx, 4);
}

#[test]
fn soft_reset_exhausts_attempts() {
    let mut mdio = MockMdio::new(vec![bmcr::RESET, bmcr::RESET, bmcr::RESET]);
    let result = soft_reset(&mut mdio, 1, 3);
    assert!(!result.unwrap());
    assert_eq!(mdio.read_idx, 3);
}

#[test]
fn soft_reset_write_error() {
    let mut mdio = MockMdio::with_failure(vec![], 0);
    let result = soft_reset(&mut mdio, 1, 10);
    assert!(result.is_err());
}

#[test]
fn soft_reset_read_error_during_poll() {
    let mut mdio = MockMdio::with_failure(vec![], 1);
    assert!(soft_reset(&mut mdio, 1, 10).is_err());
}

#[test]
fn soft_reset_zero_attempts_only_writes() {
    let mut mdio = MockMdio::new(vec![]);
    assert!(!soft_reset(&mut mdio, 2, 0).unwrap());
    assert_eq!(mdio.writes, vec![(2, regs::BMCR, bmcr::RESET)]);
    assert_eq!(mdio.read_idx, 0);
}

// ── is_link_up tests ───────────────────────────────────────────────────

#[test]
fn is_link_up_true() {
    let mut mdio = MockMdio::new(vec![bmsr::LINK_STATUS]);
    assert!(is_link_up(&mut mdio, 1).unwrap());
}

#[test]
fn is_link_up_false() {
    let mut mdio = MockMdio::new(vec![0x0000]);
    assert!(!is_link_up(&mut mdio, 1).unwrap());
}

#[test]
fn is_link_up_error() {
    let mut mdio = MockMdio::with_failure(vec![], 0);
    assert!(is_link_up(&mut mdio, 1).is_err());
}

// ── enable_auto_negotiation tests ──────────────────────────────────────

#[test]
fn enable_auto_negotiation_sets_bits() {
    let mut mdio = MockMdio::new(vec![0x0000]);
    enable_auto_negotiation(&mut mdio, 1).unwrap();
    assert_eq!(mdio.writes.len(), 1);
    let written = mdio.writes[0].2;
    assert_ne!(written & bmcr::AN_ENABLE, 0);
    assert_ne!(written & bmcr::AN_RESTART, 0);
}

#[test]
fn enable_auto_negotiation_clears_isolate() {
    let mut mdio = MockMdio::new(vec![bmcr::ISOLATE]);
    enable_auto_negotiation(&mut mdio, 1).unwrap();
    let written = mdio.writes[0].2;
    assert_eq!(written & bmcr::ISOLATE, 0, "ISOLATE should be cleared");
    assert_ne!(written & bmcr::AN_ENABLE, 0);
}

#[test]
fn enable_auto_negotiation_exact_value_keeps_other_bits() {
    let mut mdio = MockMdio::new(vec![bmcr::ISOLATE | bmcr::LOOPBACK | bmcr::DUPLEX_FULL]);
    enable_auto_negotiation(&mut mdio, 4).unwrap();
    assert_eq!(
        mdio.writes,
        vec![(4, regs::BMCR, bmcr::LOOPBACK | bmcr::DUPLEX_FULL | bmcr::AN_ENABLE | bmcr::AN_RESTART)]
    );
}

// ── read_phy_id tests ──────────────────────────────────────────────────

#[test]
fn read_phy_id_combines_registers() {
    let mut mdio = MockMdio::new(vec![0x0007, 0xC0F1]);
    let id = read_phy_id(&mut mdio, 1).unwrap();
    assert_eq!(id, 0x0007_C0F1);
}

#[test]
fn read_phy_id_error_on_first_read() {
    let mut mdio = MockMdio::with_failure(vec![], 0);
    assert!(read_phy_id(&mut mdio, 1).is_err());
}

#[test]
fn read_phy_id_error_on_second_read() {
    let mut mdio = MockMdio::with_failure(vec![0x0007], 1);
    assert!(read_phy_id(&mut mdio, 1).is_err());
}

#[test]
fn read_phy_id_halves_come_back() {
    let mut mdio = MockMdio::new(vec![0xFFFF, 0x0001]);
    let id = read_phy_id(&mut mdio, 1).unwrap();
    assert_eq!(id >> 16, 0xFFFF);
    assert_eq!(id & 0xFFFF, 0x0001);
}

// ── read_capabilities tests ────────────────────────────────────────────

#[test]
fn read_capabilities_full() {
    let bmsr_val = bmsr::TX_FD_CAPABLE
        | bmsr::TX_HD_CAPABLE
        | bmsr::T10_FD_CAPABLE
        | bmsr::T10_HD_CAPABLE
        | bmsr::AN_ABILITY;
    let mut mdio = MockMdio::new(vec![bmsr_val]);
    let caps = read_capabilities(&mut mdio, 1).unwrap();
    assert!(caps.speed_100_fd);
    assert!(caps.speed_100_hd);
    assert!(caps.speed_10_fd);
    assert!(caps.speed_10_hd);
    assert!(caps.auto_negotiation);
}

#[test]
fn read_capabilities_10_only() {
    let bmsr_val = bmsr::T10_FD_CAPABLE | bmsr::T10_HD_CAPABLE;
    let mut mdio = MockMdio::new(vec![bmsr_val]);
    let caps = read_capabilities(&mut mdio, 1).unwrap();
    assert!(!caps.speed_100_fd);
    assert!(!caps.speed_100_hd);
    assert!(caps.speed_10_fd);
    assert!(caps.speed_10_hd);
    assert!(!caps.auto_negotiation);
}

#[test]
fn read_capabilities_pause_is_never_reported() {
    let mut mdio = MockMdio::new(vec![0xFFFF]);
    let caps = read_capabilities(&mut mdio, 1).unwrap();
    assert!(!caps.pause);
}

// ── force_link tests ───────────────────────────────────────────────────

#[test]
fn force_link_100_full() {
    let mut mdio = MockMdio::new(vec![0x0000]);
    let status = LinkState::up(Speed::_100M, Duplex::Full);
    force_link(&mut mdio, 1, status).unwrap();
    let written = mdio.writes[0].2;
    assert_ne!(written & bmcr::SPEED_100, 0);
    assert_ne!(written & bmcr::DUPLEX_FULL, 0);
    assert_eq!(written & bmcr::AN_ENABLE, 0, "AN must be disabled");
}

#[test]
fn force_link_10_half() {
    let mut mdio = MockMdio::new(vec![0x0000]);
    let status = LinkState::up(Speed::_10M, Duplex::Half);
    force_link(&mut mdio, 1, status).unwrap();
    let written = mdio.writes[0].2;
    assert_eq!(written & bmcr::SPEED_100, 0);
    assert_eq!(written & bmcr::DUPLEX_FULL, 0);
    assert_eq!(written & bmcr::AN_ENABLE, 0);
}

#[test]
fn force_link_preserves_other_bits() {
    let mut mdio = MockMdio::new(vec![bmcr::LOOPBACK]);
    let status = LinkState::up(Speed::_100M, Duplex::Full);
    force_link(&mut mdio, 1, status).unwrap();
    let written = mdio.writes[0].2;
    assert_ne!(written & bmcr::LOOPBACK, 0, "LOOPBACK should be preserved");
    assert_ne!(written & bmcr::SPEED_100, 0);
    assert_ne!(written & bmcr::DUPLEX_FULL, 0);
}

#[test]
fn force_link_clears_an_restart() {
    let mut mdio = MockMdio::new(vec![bmcr::AN_ENABLE | bmcr::AN_RESTART]);
    let status = LinkState::up(Speed::_100M, Duplex::Full);
    force_link(&mut mdio, 1, status).unwrap();
    let written = mdio.writes[0].2;
    assert_eq!(written & bmcr::AN_ENABLE, 0, "AN_ENABLE must be cleared");
    assert_eq!(written & bmcr::AN_RESTART, 0, "AN_RESTART must be cleared");
    assert_ne!(written & bmcr::SPEED_100, 0);
    assert_ne!(written & bmcr::DUPLEX_FULL, 0);
}

#[test]
fn force_link_10_full_clears_speed_and_isolate() {
    let mut mdio = MockMdio::new(vec![bmcr::SPEED_100 | bmcr::ISOLATE | bmcr::POWER_DOWN]);
    force_link(&mut mdio, 3, LinkState::up(Speed::_10M, Duplex::Full)).unwrap();
    assert_eq!(mdio.writes, vec![(3, regs::BMCR, bmcr::POWER_DOWN | bmcr::DUPLEX_FULL)]);
}

#[test]
fn force_link_read_error_writes_nothing() {
    let mut mdio = MockMdio::with_failure(vec![], 0);
    assert!(force_link(&mut mdio, 1, LinkState::up(Speed::_10M, Duplex::Half)).is_err());
    assert!(mdio.writes.is_empty());
}
