use eth_phy::lan867x::mmd::{mmd_read, mmd_rmw, mmd_write};
use eth_phy::lan867x::regs;
use eth_phy::mock::{MockMdio, MockOp as Op};


#[test]
fn mmd_read_drives_correct_indirection_sequence() {
    let mut mdio = MockMdio::new(vec![0x0A10]);
    let v = mmd_read(&mut mdio, 0, regs::MMD_VS2, regs::MMD_REG_MIDVER).unwrap();
    assert_eq!(v, 0x0A10);
    assert_eq!(
        mdio.ops,
        vec![
            Op::Write {
                phy: 0,
                reg: regs::REG_MMDCTRL,
                value: regs::MMDCTRL_FNCTN_ADDR | u16::from(regs::MMD_VS2),
            },
            Op::Write { phy: 0, reg: regs::REG_MMDAD, value: regs::MMD_REG_MIDVER },
            Op::Write {
                phy: 0,
                reg: regs::REG_MMDCTRL,
                value: regs::MMDCTRL_FNCTN_DATA | u16::from(regs::MMD_VS2),
            },
            Op::Read { phy: 0, reg: regs::REG_MMDAD },
        ]
    );
}

#[test]
fn mmd_write_drives_correct_indirection_sequence() {
    let mut mdio = MockMdio::new(vec![]);
    mmd_write(&mut mdio, 3, regs::MMD_VS2, regs::MMD_REG_PLCA_CTRL1, 0x0801).unwrap();
    assert_eq!(
        mdio.ops,
        vec![
            Op::Write {
                phy: 3,
                reg: regs::REG_MMDCTRL,
                value: regs::MMDCTRL_FNCTN_ADDR | u16::from(regs::MMD_VS2),
            },
            Op::Write { phy: 3, reg: regs::REG_MMDAD, value: regs::MMD_REG_PLCA_CTRL1 },
            Op::Write {
                phy: 3,
                reg: regs::REG_MMDCTRL,
                value: regs::MMDCTRL_FNCTN_DATA | u16::from(regs::MMD_VS2),
            },
            Op::Write { phy: 3, reg: regs::REG_MMDAD, value: 0x0801 },
        ]
    );
}

fn last_mmdad_write(mdio: &MockMdio) -> Option<u16> {
    mdio.ops.iter().rev().find_map(|op| match op {
        Op::Write { reg: regs::REG_MMDAD, value, .. } => Some(*value),
        _ => None,
    })
}

#[test]
fn mmd_rmw_preserves_unrelated_bits() {
    let pre = regs::T1SPMACTL_TXD;
    let mut mdio = MockMdio::new(vec![pre]);
    mmd_rmw(&mut mdio, 0, regs::MMD_PMA_PMD, regs::MMD_REG_T1SPMACTL, 0, regs::T1SPMACTL_MDE)
        .unwrap();
    let last = last_mmdad_write(&mdio).expect("expected an MMDAD data write");
    assert_eq!(
        last,
        regs::T1SPMACTL_TXD | regs::T1SPMACTL_MDE,
        "RMW must preserve the previously-set TXD bit"
    );
}

#[test]
fn mmd_rmw_clears_then_sets() {
    let pre = regs::PLCA_CTRL0_EN | regs::PLCA_CTRL0_RST;
    let mut mdio = MockMdio::new(vec![pre]);
    mmd_rmw(
        &mut mdio,
        0,
        regs::MMD_VS2,
        regs::MMD_REG_PLCA_CTRL0,
        regs::PLCA_CTRL0_RST,
        regs::PLCA_CTRL0_EN,
    )
    .unwrap();
    assert_eq!(last_mmdad_write(&mdio).unwrap(), regs::PLCA_CTRL0_EN);
}

#[test]
fn mmd_rmw_set_wins_over_clear() {
    let mut mdio = MockMdio::new(vec![0x00F0]);
    mmd_rmw(&mut mdio, 0, regs::MMD_VS2, regs::MMD_REG_PLCA_CTRL0, 0x00FF, 0x000F).unwrap();
    assert_eq!(last_mmdad_write(&mdio).unwrap(), 0x000F);
}

#[test]
fn mmd_devad_is_masked_to_five_bits() {
    let mut mdio = MockMdio::new(vec![0x1234]);
    assert_eq!(mmd_read(&mut mdio, 1, 0xFF, 0x0010).unwrap(), 0x1234);
    assert_eq!(mdio.ops[0], Op::Write { phy: 1, reg: regs::REG_MMDCTRL, value: 0x001F });
    assert_eq!(mdio.ops[2], Op::Write { phy: 1, reg: regs::REG_MMDCTRL, value: 0x401F });
}
