use eth_phy::lan87xx::regs::{mcsr, pscsr, PHY_OUI, PHY_OUI_MASK};

#[test]
fn phy_oui_matches_lan8720a() {
    let id: u32 = 0x0007_C0F0;
    assert_eq!(id & PHY_OUI_MASK, PHY_OUI);
}

#[test]
fn phy_oui_matches_lan8742a() {
    let id: u32 = 0x0007_C130;
    assert_eq!(id & PHY_OUI_MASK, PHY_OUI);
}

#[test]
fn phy_oui_rejects_unknown() {
    let id: u32 = 0x0022_1619;
    assert_ne!(id & PHY_OUI_MASK, PHY_OUI);
}

#[test]
fn pscsr_speed_duplex_values() {
    assert_eq!(pscsr::SPEED_10_HD, 0x04);
    assert_eq!(pscsr::SPEED_10_FD, 0x14);
    assert_eq!(pscsr::SPEED_100_HD, 0x08);
    assert_eq!(pscsr::SPEED_100_FD, 0x18);
}

#[test]
fn pscsr_speed_duplex_mask() {
    assert_eq!(pscsr::SPEED_10_HD & pscsr::SPEED_DUPLEX_MASK, pscsr::SPEED_10_HD);
    assert_eq!(pscsr::SPEED_10_FD & pscsr::SPEED_DUPLEX_MASK, pscsr::SPEED_10_FD);
    assert_eq!(pscsr::SPEED_100_HD & pscsr::SPEED_DUPLEX_MASK, pscsr::SPEED_100_HD);
    assert_eq!(pscsr::SPEED_100_FD & pscsr::SPEED_DUPLEX_MASK, pscsr::SPEED_100_FD);

    let val_with_noise: u16 = pscsr::SPEED_100_FD | 0xFF00 | 0x0003;
    assert_eq!(val_with_noise & pscsr::SPEED_DUPLEX_MASK, pscsr::SPEED_100_FD);
}

#[test]
fn mcsr_edpd_bit() {
    assert_eq!(mcsr::EDPD_EN, 0x4000);
    assert_eq!(mcsr::EDPD_EN.count_ones(), 1);
}
