use eth_phy::ieee802_3::bmcr;
use eth_phy::lan867x::{regs, Chip, PhyLan867x, PlcaConfig, PlcaError, PlcaStatus};
use eth_phy::mock::{MockError, MockMdio};
use eth_phy::{Duplex, LinkState, PhyDriver, PhyError, Speed};


const PHY_ID0_LAN867X: u16 = 0x0000;
const PHY_ID1_LAN867X_REV2: u16 = 0xC562;

fn reads_for_successful_init(strap_pkgtyp: u16) -> Vec<u16> {
    vec![
        0x0000,                // BMCR poll inside soft_reset — SW_RESET cleared
        regs::STS2_RESETC,     // STS2 with RESETC asserted
        PHY_ID0_LAN867X,       // PHY_ID0
        PHY_ID1_LAN867X_REV2,  // PHY_ID1
        strap_pkgtyp,          // STRAP_CTRL0
        regs::MIDVER_EXPECTED, // MIDVER
        0x0000,                // T1SPMACTL pre-RMW
    ]
}

// ── Constructor tests ──────────────────────────────────────────────────

#[test]
fn new_sets_address_and_no_chip() {
    let phy = PhyLan867x::new(7);
    assert_eq!(phy.phy_addr(), 7);
    assert_eq!(phy.chip(), None);
}

// ── init() tests ───────────────────────────────────────────────────────

#[test]
fn init_success_lan8671_jethome_target() {
    let mut mdio = MockMdio::new(reads_for_successful_init(regs::STRAP_CTRL0_PKGTYP_LAN8671));
    let mut phy = PhyLan867x::new(0);
    phy.init(&mut mdio).unwrap();
    assert_eq!(phy.chip(), Some(Chip::Lan8671));
}

#[test]
fn init_success_lan8670() {
    let mut mdio = MockMdio::new(reads_for_successful_init(regs::STRAP_CTRL0_PKGTYP_LAN8670));
    let mut phy = PhyLan867x::new(0);
    phy.init(&mut mdio).unwrap();
    assert_eq!(phy.chip(), Some(Chip::Lan8670));
}

#[test]
fn init_success_lan8672() {
    let mut mdio = MockMdio::new(reads_for_successful_init(regs::STRAP_CTRL0_PKGTYP_LAN8672));
    let mut phy = PhyLan867x::new(0);
    phy.init(&mut mdio).unwrap();
    assert_eq!(phy.chip(), Some(Chip::Lan8672));
}

#[test]
fn init_rejects_invalid_pkgtyp() {
    let mut mdio = MockMdio::new(vec![
        0x0000,
        regs::STS2_RESETC,
        PHY_ID0_LAN867X,
        PHY_ID1_LAN867X_REV2,
        0x0000, // STRAP_CTRL0 with PKGTYP = 00b
    ]);
    let mut phy = PhyLan867x::new(0);
    let err = phy.init(&mut mdio).unwrap_err();
    match err {
        PhyError::UnsupportedPackage { strap } => assert_eq!(strap, 0x0000),
        other => panic!("expected UnsupportedPackage, got {other:?}"),
    }
}

#[test]
fn init_writes_t1spmactl_mde_bit() {
    let mut mdio = MockMdio::new(reads_for_successful_init(regs::STRAP_CTRL0_PKGTYP_LAN8671));
    let mut phy = PhyLan867x::new(0);
    phy.init(&mut mdio).unwrap();
    let last_mmdad_data_write = mdio
        .writes
        .iter()
        .rev()
        .find(|&&(_, reg, _)| reg == regs::REG_MMDAD)
        .expect("expected an MMDAD data write");
    assert_eq!(
        last_mmdad_data_write.2,
        regs::T1SPMACTL_MDE,
        "init must set T1SPMACTL.MDE = 1 (multidrop enable)"
    );
}

#[test]
fn init_t1spmactl_rmw_preserves_other_bits() {
    let mut reads = reads_for_successful_init(regs::STRAP_CTRL0_PKGTYP_LAN8671);
    reads[6] = regs::T1SPMACTL_TXD;
    let mut mdio = MockMdio::new(reads);
    let mut phy = PhyLan867x::new(0);
    phy.init(&mut mdio).unwrap();
    let last_mmdad_data_write = mdio
        .writes
        .iter()
        .rev()
        .find(|&&(_, reg, _)| reg == regs::REG_MMDAD)
        .unwrap();
    assert_eq!(
        last_mmdad_data_write.2,
        regs::T1SPMACTL_TXD | regs::T1SPMACTL_MDE,
        "RMW must preserve pre-existing T1SPMACTL bits"
    );
}

#[test]
fn init_reset_timeout_when_bmcr_never_clears() {
    let mut mdio = MockMdio::new(vec![bmcr::RESET; 1000]);
    let mut phy = PhyLan867x::new(0);
    let err = phy.init(&mut mdio).unwrap_err();
    assert!(matches!(err, PhyError::ResetTimeout));
}

#[test]
fn init_reset_timeout_when_resetc_never_asserts() {
    let mut reads = vec![0x0000_u16; 1001];
    reads[0] = 0x0000;
    let mut mdio = MockMdio::new(reads);
    let mut phy = PhyLan867x::new(0);
    let err = phy.init(&mut mdio).unwrap_err();
    assert!(matches!(err, PhyError::ResetTimeout));
}

#[test]
fn lib_init_rejects_wrong_phy_id() {
    let mut mdio = MockMdio::new(vec![
        0x0000,
        regs::STS2_RESETC,
        0x0007, // PHY_ID0 — not LAN867x
        0xC0F0, // PHY_ID1 — looks like LAN8720A
    ]);
    let mut phy = PhyLan867x::new(0);
    let err = phy.init(&mut mdio).unwrap_err();
    match err {
        PhyError::UnsupportedChip { id } => assert_eq!(id, 0x0007_C0F0),
        e => panic!("expected UnsupportedChip, got {e:?}"),
    }
}

#[test]
fn init_rejects_wrong_midver() {
    let mut mdio = MockMdio::new(vec![
        0x0000,
        regs::STS2_RESETC,
        PHY_ID0_LAN867X,
        PHY_ID1_LAN867X_REV2,
        regs::STRAP_CTRL0_PKGTYP_LAN8671,
        0xDEAD, // MIDVER — wrong
    ]);
    let mut phy = PhyLan867x::new(0);
    let err = phy.init(&mut mdio).unwrap_err();
    assert!(matches!(err, PhyError::UnsupportedChip { .. }));
}

#[test]
fn lib_init_mdio_error_propagates() {
    let mut mdio = MockMdio::with_failure(vec![], 0);
    let mut phy = PhyLan867x::new(0);
    let err = phy.init(&mut mdio).unwrap_err();
    assert!(matches!(err, PhyError::Mdio(MockError)));
}

#[test]
fn init_partial_failure_at_midver_leaves_chip_none() {
    let mut mdio = MockMdio::new(vec![
        0x0000,
        regs::STS2_RESETC,
        PHY_ID0_LAN867X,
        PHY_ID1_LAN867X_REV2,
        regs::STRAP_CTRL0_PKGTYP_LAN8671,
        0xDEAD,
    ]);
    // Driver state as left by an earlier init / configure_plca.
    let mut phy = PhyLan867x::restore(0, Some(Chip::Lan8670), Some(5));
    let err = phy.init(&mut mdio).unwrap_err();
    assert!(matches!(err, PhyError::UnsupportedChip { .. }));
    assert_eq!(phy.chip(), None, "chip must be None after MIDVER failure");
    assert_eq!(phy.plca_id(), None);
}

#[test]
fn init_partial_failure_at_mde_rmw_leaves_chip_none() {
    let mut mdio = MockMdio::with_failure(
        vec![
            0x0000,
            regs::STS2_RESETC,
            PHY_ID0_LAN867X,
            PHY_ID1_LAN867X_REV2,
            regs::STRAP_CTRL0_PKGTYP_LAN8671,
            regs::MIDVER_EXPECTED,
        ],
        13,
    );
    // Driver state as left by an earlier init / configure_plca.
    let mut phy = PhyLan867x::restore(0, Some(Chip::Lan8672), None);
    let err = phy.init(&mut mdio).unwrap_err();
    assert!(matches!(err, PhyError::Mdio(MockError)));
    assert_eq!(phy.chip(), None, "chip must be None after MDE step failure");
}

#[test]
fn init_failure_makes_poll_link_report_none() {
    let mut mdio = MockMdio::new(vec![
        0x0000,
        regs::STS2_RESETC,
        PHY_ID0_LAN867X,
        PHY_ID1_LAN867X_REV2,
        regs::STRAP_CTRL0_PKGTYP_LAN8671,
        0xDEAD,
    ]);
    // Driver state as left by an earlier init / configure_plca.
    let mut phy = PhyLan867x::restore(0, Some(Chip::Lan8671), None);
    let _ = phy.init(&mut mdio);
    let mut empty_mdio = MockMdio::new(vec![]);
    let result = phy.poll_link(&mut empty_mdio).unwrap();
    assert!(result.is_none());
}

#[test]
fn init_writes_resetc_handshake_indirection_before_phy_id_read() {
    let mut mdio = MockMdio::new(reads_for_successful_init(regs::STRAP_CTRL0_PKGTYP_LAN8671));
    let mut phy = PhyLan867x::new(0);
    phy.init(&mut mdio).unwrap();
    let sts2_addr_write_idx = mdio
        .writes
        .iter()
        .position(|&(_, reg, val)| reg == regs::REG_MMDAD && val == regs::MMD_REG_STS2)
        .expect("expected an MMDAD address-write targeting STS2");
    assert!(mdio.read_idx >= 2);
    assert!(
        sts2_addr_write_idx <= 2,
        "MMDAD STS2 write must be amongst the first three writes"
    );
}

#[test]
fn init_resetc_after_a_few_polls() {
    let mut mdio = MockMdio::new(vec![
        0x0000,
        0x0000,
        0x0000,
        regs::STS2_RESETC,
        PHY_ID0_LAN867X,
        PHY_ID1_LAN867X_REV2,
        regs::STRAP_CTRL0_PKGTYP_LAN8670,
        regs::MIDVER_EXPECTED,
        0x0000,
    ]);
    let mut phy = PhyLan867x::new(0);
    phy.init(&mut mdio).unwrap();
    assert_eq!(phy.chip(), Some(Chip::Lan8670));
    assert_eq!(mdio.read_idx, 9);
}

// ── poll_link tests ────────────────────────────────────────────────────

#[test]
fn poll_link_before_init_returns_none() {
    let mut mdio = MockMdio::new(vec![]);
    let mut phy = PhyLan867x::new(0);
    assert!(phy.poll_link(&mut mdio).unwrap().is_none());
    assert!(mdio.writes.is_empty());
    assert_eq!(mdio.read_idx, 0);
}

#[test]
fn poll_link_plca_disabled_reports_linked() {
    let mut mdio = MockMdio::new(vec![]);
    // Driver state as left by an earlier init / configure_plca.
    let mut phy = PhyLan867x::restore(0, Some(Chip::Lan8671), None);
    let result = phy.poll_link(&mut mdio).unwrap();
    assert_eq!(result, Some(LinkState::up(Speed::_10M, Duplex::Half)));
    assert!(mdio.writes.is_empty());
    assert_eq!(mdio.read_idx, 0);
}

#[test]
fn poll_link_plca_enabled_pst_set_reports_linked() {
    let mut mdio = MockMdio::new(vec![regs::PLCA_STS_PST]);
    // Driver state as left by an earlier init / configure_plca.
    let mut phy = PhyLan867x::restore(0, Some(Chip::Lan8671), Some(0));
    let result = phy.poll_link(&mut mdio).unwrap();
    assert_eq!(result, Some(LinkState::up(Speed::_10M, Duplex::Half)));
}

#[test]
fn poll_link_plca_enabled_pst_clear_reports_none() {
    let mut mdio = MockMdio::new(vec![0x0000]);
    // Driver state as left by an earlier init / configure_plca.
    let mut phy = PhyLan867x::restore(0, Some(Chip::Lan8671), Some(1));
    let result = phy.poll_link(&mut mdio).unwrap();
    assert!(result.is_none());
}

#[test]
fn poll_link_propagates_mdio_error() {
    let mut mdio = MockMdio::with_failure(vec![], 0);
    // Driver state as left by an earlier init / configure_plca.
    let mut phy = PhyLan867x::restore(0, Some(Chip::Lan8671), Some(0));
    let err = phy.poll_link(&mut mdio).unwrap_err();
    assert!(matches!(err, PhyError::Mdio(MockError)));
}

// ── capabilities / phy_id passthroughs ─────────────────────────────────

#[test]
fn capabilities_passes_through_to_helper() {
    let bmsr = 1 << 11;
    let mut mdio = MockMdio::new(vec![bmsr]);
    let phy = PhyLan867x::new(0);
    let caps = phy.capabilities(&mut mdio).unwrap();
    assert!(caps.speed_10_hd);
}

#[test]
fn phy_id_passes_through_to_helper() {
    let mut mdio = MockMdio::new(vec![PHY_ID0_LAN867X, PHY_ID1_LAN867X_REV2]);
    let phy = PhyLan867x::new(0);
    let id = phy.phy_id(&mut mdio).unwrap();
    assert_eq!(id, 0x0000_C562);
}

// ── PLCA configure / disable / status tests ────────────────────────────

fn last_mmdad_data_write(mdio: &MockMdio) -> u16 {
    mdio.writes
        .iter()
        .rev()
        .find(|&&(_, reg, _)| reg == regs::REG_MMDAD)
        .map(|&(_, _, v)| v)
        .expect("expected at least one MMDAD data write")
}

fn mmdad_data_writes(mdio: &MockMdio) -> Vec<u16> {
    let mut current_fnctn: u16 = 0;
    let mut data_values = Vec::new();
    for &(_, reg, val) in &mdio.writes {
        if reg == regs::REG_MMDCTRL {
            current_fnctn = val & 0xC000;
        } else if reg == regs::REG_MMDAD && current_fnctn == regs::MMDCTRL_FNCTN_DATA {
            data_values.push(val);
        }
    }
    data_values
}

#[test]
fn configure_plca_coordinator_writes_ctrl1_then_enables() {
    let mut mdio = MockMdio::new(vec![0x0000]);
    let mut phy = PhyLan867x::new(0);
    phy.configure_plca(
        &mut mdio,
        &PlcaConfig { node_id: 0, node_count: 8, burst_count: 0, burst_timer: 0 },
    )
    .unwrap();
    let writes = mmdad_data_writes(&mdio);
    assert_eq!(writes[0], 0x0800, "CTRL1 = NCNT(8) << 8 | ID(0)");
    assert_eq!(*writes.last().unwrap(), regs::PLCA_CTRL0_EN);
    assert_eq!(phy.plca_id(), Some(0));
}

#[test]
fn configure_plca_follower_with_burst() {
    let mut mdio = MockMdio::new(vec![0x0000]);
    let mut phy = PhyLan867x::new(0);
    phy.configure_plca(
        &mut mdio,
        &PlcaConfig { node_id: 3, node_count: 8, burst_count: 2, burst_timer: 0x40 },
    )
    .unwrap();
    let writes = mmdad_data_writes(&mdio);
    assert_eq!(writes[0], 0x0803);
    assert_eq!(writes[1], 0x0240);
    assert_eq!(writes[2], regs::PLCA_CTRL0_EN);
    assert_eq!(phy.plca_id(), Some(3));
}

#[test]
fn configure_plca_always_writes_burst_register_with_maxbc_zero() {
    let mut mdio = MockMdio::new(vec![0x0000]);
    let mut phy = PhyLan867x::new(0);
    phy.configure_plca(
        &mut mdio,
        &PlcaConfig { node_id: 1, node_count: 8, burst_count: 0, burst_timer: 0 },
    )
    .unwrap();
    let burst_data_idx = mdio
        .writes
        .iter()
        .position(|&(_, reg, val)| reg == regs::REG_MMDAD && val == regs::MMD_REG_PLCA_BURST)
        .expect("expected an MMDAD address-write to PLCA_BURST")
        + 2;
    let burst_value = mdio.writes[burst_data_idx].2;
    assert_eq!(burst_value, 0x0080);
}

#[test]
fn configure_plca_burst_timer_zero_uses_sentinel_default() {
    let mut mdio = MockMdio::new(vec![0x0000]);
    let mut phy = PhyLan867x::new(0);
    phy.configure_plca(
        &mut mdio,
        &PlcaConfig { node_id: 0, node_count: 8, burst_count: 4, burst_timer: 0 },
    )
    .unwrap();
    let burst_data_idx = mdio
        .writes
        .iter()
        .position(|&(_, reg, val)| reg == regs::REG_MMDAD && val == regs::MMD_REG_PLCA_BURST)
        .unwrap()
        + 2;
    let burst_value = mdio.writes[burst_data_idx].2;
    assert_eq!(burst_value, 0x0480);
}

#[test]
fn configure_plca_burst_timer_nonzero_passes_through() {
    let mut mdio = MockMdio::new(vec![0x0000]);
    let mut phy = PhyLan867x::new(0);
    phy.configure_plca(
        &mut mdio,
        &PlcaConfig { node_id: 0, node_count: 8, burst_count: 4, burst_timer: 0x40 },
    )
    .unwrap();
    let burst_data_idx = mdio
        .writes
        .iter()
        .position(|&(_, reg, val)| reg == regs::REG_MMDAD && val == regs::MMD_REG_PLCA_BURST)
        .unwrap()
        + 2;
    let burst_value = mdio.writes[burst_data_idx].2;
    assert_eq!(burst_value, 0x0440);
}

#[test]
fn configure_plca_rejects_id_0xff() {
    let mut mdio = MockMdio::new(vec![]);
    let mut phy = PhyLan867x::new(0);
    let err = phy
        .configure_plca(
            &mut mdio,
            &PlcaConfig { node_id: 0xFF, node_count: 8, burst_count: 0, burst_timer: 0 },
        )
        .unwrap_err();
    assert!(matches!(err, PlcaError::InvalidConfig));
    assert_eq!(phy.plca_id(), None);
    assert!(mdio.writes.is_empty());
}

#[test]
fn configure_plca_rejects_follower_id_at_or_above_count() {
    let mut mdio = MockMdio::new(vec![]);
    let mut phy = PhyLan867x::new(0);
    let err = phy
        .configure_plca(
            &mut mdio,
            &PlcaConfig { node_id: 8, node_count: 8, burst_count: 0, burst_timer: 0 },
        )
        .unwrap_err();
    assert!(matches!(err, PlcaError::InvalidConfig));
}

#[test]
fn configure_plca_allows_follower_with_count_zero() {
    let mut mdio = MockMdio::new(vec![0x0000]);
    let mut phy = PhyLan867x::new(0);
    phy.configure_plca(
        &mut mdio,
        &PlcaConfig { node_id: 5, node_count: 0, burst_count: 0, burst_timer: 0 },
    )
    .unwrap();
}

#[test]
fn configure_plca_writes_ctrl1_before_enable() {
    let mut mdio = MockMdio::new(vec![0x0000]);
    let mut phy = PhyLan867x::new(0);
    phy.configure_plca(&mut mdio, &PlcaConfig::default()).unwrap();
    let writes = mmdad_data_writes(&mdio);
    assert_eq!(writes.last().copied().unwrap(), regs::PLCA_CTRL0_EN);
}

#[test]
fn configure_plca_mdio_error_keeps_plca_id() {
    let mut mdio = MockMdio::with_failure(vec![], 5);
    // Driver state as left by an earlier init / configure_plca.
    let mut phy = PhyLan867x::restore(0, None, Some(2));
    let err = phy.configure_plca(&mut mdio, &PlcaConfig::default()).unwrap_err();
    assert!(matches!(err, PlcaError::Mdio(MockError)));
    assert_eq!(phy.plca_id(), Some(2));
}

#[test]
fn plca_config_default_is_coordinator_of_eight() {
    assert_eq!(
        PlcaConfig::default(),
        PlcaConfig { node_id: 0, node_count: 8, burst_count: 0, burst_timer: 0 }
    );
}

#[test]
fn disable_plca_clears_en_and_internal_state() {
    let mut mdio = MockMdio::new(vec![regs::PLCA_CTRL0_EN]);
    // Driver state as left by an earlier init / configure_plca.
    let mut phy = PhyLan867x::restore(0, None, Some(2));
    phy.disable_plca(&mut mdio).unwrap();
    assert_eq!(last_mmdad_data_write(&mdio), 0);
    assert_eq!(phy.plca_id(), None);
}

#[test]
fn disable_plca_error_keeps_plca_id() {
    let mut mdio = MockMdio::with_failure(vec![], 0);
    // Driver state as left by an earlier init / configure_plca.
    let mut phy = PhyLan867x::restore(0, None, Some(2));
    assert!(matches!(phy.disable_plca(&mut mdio), Err(PlcaError::Mdio(MockError))));
    assert_eq!(phy.plca_id(), Some(2));
}

#[test]
fn plca_status_decodes_chip_state() {
    let mut mdio = MockMdio::new(vec![regs::PLCA_CTRL0_EN, 0x0803, regs::PLCA_STS_PST]);
    let phy = PhyLan867x::new(0);
    let s = phy.plca_status(&mut mdio).unwrap();
    assert_eq!(
        s,
        PlcaStatus { enabled: true, node_id: 3, is_coordinator: false, stable: true }
    );
}

#[test]
fn plca_status_recognises_coordinator() {
    let mut mdio = MockMdio::new(vec![regs::PLCA_CTRL0_EN, 0x0800, regs::PLCA_STS_PST]);
    let phy = PhyLan867x::new(0);
    let s = phy.plca_status(&mut mdio).unwrap();
    assert!(s.is_coordinator);
    assert_eq!(s.node_id, 0);
}

#[test]
fn plca_status_when_disabled() {
    let mut mdio = MockMdio::new(vec![0x0000, 0x00FF, 0x0000]);
    let phy = PhyLan867x::new(0);
    let s = phy.plca_status(&mut mdio).unwrap();
    assert_eq!(
        s,
        PlcaStatus { enabled: false, node_id: 0xFF, is_coordinator: false, stable: false }
    );
}

#[test]
fn plca_status_mdio_error() {
    let mut mdio = MockMdio::with_failure(vec![regs::PLCA_CTRL0_EN], 5);
    let phy = PhyLan867x::new(0);
    assert!(matches!(phy.plca_status(&mut mdio), Err(PlcaError::Mdio(MockError))));
}

#[test]
fn poll_link_after_configure_plca_uses_pst_branch() {
    let mut mdio = MockMdio::new(vec![0x0000, 0x0000]);
    // Driver state as left by an earlier init / configure_plca.
    let mut phy = PhyLan867x::restore(0, Some(Chip::Lan8671), None);
    phy.configure_plca(&mut mdio, &PlcaConfig::default()).unwrap();
    let result = phy.poll_link(&mut mdio).unwrap();
    assert!(result.is_none(), "PST=0 ⇒ link not yet up");
}

#[test]
fn init_clears_cached_plca_id() {
    let mut mdio = MockMdio::new(reads_for_successful_init(regs::STRAP_CTRL0_PKGTYP_LAN8671));
    // Driver state as left by an earlier init / configure_plca.
    let mut phy = PhyLan867x::restore(0, None, Some(3));
    phy.init(&mut mdio).unwrap();
    assert_eq!(phy.plca_id(), None);
}

#[test]
fn configure_plca_reconfigure_with_burst_zero_clears_chip_burst() {
    let mut mdio = MockMdio::new(vec![0x0000, 0x0000]);
    let mut phy = PhyLan867x::new(0);
    phy.configure_plca(
        &mut mdio,
        &PlcaConfig { node_id: 0, node_count: 8, burst_count: 4, burst_timer: 0x40 },
    )
    .unwrap();
    phy.configure_plca(
        &mut mdio,
        &PlcaConfig { node_id: 0, node_count: 8, burst_count: 0, burst_timer: 0 },
    )
    .unwrap();
    let mut burst_data_writes = Vec::new();
    for (i, &(_, reg, val)) in mdio.writes.iter().enumerate() {
        if reg == regs::REG_MMDAD && val == regs::MMD_REG_PLCA_BURST {
            if let Some(data) = mdio.writes[i + 1..]
                .iter()
                .find(|w| w.1 == regs::REG_MMDAD)
                .map(|w| w.2)
            {
                burst_data_writes.push(data);
            }
        }
    }
    assert_eq!(
        burst_data_writes.len(),
        2,
        "expected one PLCA_BURST write per configure_plca call"
    );
    assert_eq!(burst_data_writes[0], 0x0440, "first call: MAXBC=4, BTMR=0x40");
    assert_eq!(burst_data_writes[1] & 0xFF00, 0x0000, "second call MUST clear MAXBC to 0");
}

#[test]
fn poll_link_after_disable_plca_returns_to_always_linked() {
    let mut mdio = MockMdio::new(vec![0x0000, regs::PLCA_CTRL0_EN]);
    // Driver state as left by an earlier init / configure_plca.
    let mut phy = PhyLan867x::restore(0, Some(Chip::Lan8671), None);
    phy.configure_plca(&mut mdio, &PlcaConfig::default()).unwrap();
    phy.disable_plca(&mut mdio).unwrap();
    let writes_before = mdio.writes.len();
    let reads_before = mdio.read_idx;
    let result = phy.poll_link(&mut mdio).unwrap();
    assert_eq!(result, Some(LinkState::up(Speed::_10M, Duplex::Half)));
    assert_eq!(mdio.writes.len(), writes_before);
    assert_eq!(mdio.read_idx, reads_before);
}

#[test]
fn init_talks_only_to_own_address() {
    let mut mdio = MockMdio::new(reads_for_successful_init(regs::STRAP_CTRL0_PKGTYP_LAN8671));
    let mut phy = PhyLan867x::new(5);
    phy.init(&mut mdio).unwrap();
    assert!(mdio.writes.iter().all(|&(phy_addr, _, _)| phy_addr == 5));
    assert!(mdio.ops.iter().all(|op| match *op {
        eth_phy::mock::MockOp::Read { phy, .. } => phy == 5,
        eth_phy::mock::MockOp::Write { phy, .. } => phy == 5,
    }));
}

#[test]
fn configure_plca_largest_follower_register_values() {
    let mut mdio = MockMdio::new(vec![0x0000]);
    let mut phy = PhyLan867x::new(0);
    phy.configure_plca(
        &mut mdio,
        &PlcaConfig { node_id: 254, node_count: 255, burst_count: 255, burst_timer: 255 },
    )
    .unwrap();
    let writes = mmdad_data_writes(&mdio);
    assert_eq!(writes, vec![0xFFFE, 0xFFFF, regs::PLCA_CTRL0_EN]);
    assert_eq!(phy.plca_id(), Some(254));
}

#[test]
fn configure_plca_enable_keeps_other_ctrl0_bits() {
    let mut mdio = MockMdio::new(vec![regs::PLCA_CTRL0_RST]);
    let mut phy = PhyLan867x::new(0);
    phy.configure_plca(&mut mdio, &PlcaConfig::default()).unwrap();
    assert_eq!(last_mmdad_data_write(&mdio), regs::PLCA_CTRL0_EN | regs::PLCA_CTRL0_RST);
}

#[test]
fn init_chip_comes_from_pkgtyp_only() {
    let strap = regs::STRAP_CTRL0_PKGTYP_LAN8672 | regs::STRAP_CTRL0_MITYP_MII | 0x0003;
    let mut mdio = MockMdio::new(reads_for_successful_init(strap));
    let mut phy = PhyLan867x::new(0);
    phy.init(&mut mdio).unwrap();
    assert_eq!(phy.chip(), Some(Chip::Lan8672));
}

#[test]
fn init_accepts_any_silicon_revision() {
    let mut reads = reads_for_successful_init(regs::STRAP_CTRL0_PKGTYP_LAN8671);
    reads[3] = 0xC56F;
    let mut mdio = MockMdio::new(reads);
    let mut phy = PhyLan867x::new(0);
    phy.init(&mut mdio).unwrap();
    assert_eq!(phy.chip(), Some(Chip::Lan8671));
}
