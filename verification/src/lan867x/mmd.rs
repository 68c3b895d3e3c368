//! IEEE 802.3 Annex 22D MMD register indirection.
//!
//! The LAN867x supports the Clause 22 MDIO frame format only. Clause-45
//! (MMD-managed) registers are reached via a 4-step indirection through
//! `MMDCTRL` (Clause 22 register 0x0D) and `MMDAD` (register 0x0E):
//!
//! 1. `MMDCTRL = (FNCTN_ADDR | DEVAD)` — select the device, address mode.
//! 2. `MMDAD = <register address>`     — program the target register.
//! 3. `MMDCTRL = (FNCTN_DATA | DEVAD)` — switch to data-access mode.
//! 4. read or write `MMDAD`            — access the selected register.
use crate::lan867x::regs;
use crate::mdio::{addressed_to, extends, op_phy, read_at, write_at, MdioBus, MdioOp};
use vstd::prelude::*;

verus! {

/// The `DEVAD` field of `MMDCTRL` for device `devad`.
pub open spec fn devad_field(devad: u8) -> u16 {
    (devad as u16) & regs::MMDCTRL_DEVAD_MASK
}

/// The value a read-modify-write stores: `current` with the bits of
/// `clear_mask` cleared, then the bits of `set_mask` set.
pub open spec fn rmw_value(current: u16, clear_mask: u16, set_mask: u16) -> u16 {
    (current & !clear_mask) | set_mask
}

/// Steps 1-3 of the indirection: select register `reg` of MMD `devad`.
pub open spec fn mmd_select_run<E>(t: Seq<MdioOp<E>>, i: int, phy: u8, devad: u8, reg: u16) -> Option<
    (Result<(), E>, int),
> {
    match write_at(t, i, phy, regs::REG_MMDCTRL, regs::MMDCTRL_FNCTN_ADDR | devad_field(devad)) {
        None => None,
        Some(Err(e)) => Some((Err(e), i + 1)),
        Some(Ok(_)) => match write_at(t, i + 1, phy, regs::REG_MMDAD, reg) {
            None => None,
            Some(Err(e)) => Some((Err(e), i + 2)),
            Some(Ok(_)) => match write_at(
                t,
                i + 2,
                phy,
                regs::REG_MMDCTRL,
                regs::MMDCTRL_FNCTN_DATA | devad_field(devad),
            ) {
                None => None,
                Some(r) => Some((r, i + 3)),
            },
        },
    }
}

/// [`mmd_read`]: select, then read `MMDAD`.
pub open spec fn mmd_read_run<E>(t: Seq<MdioOp<E>>, i: int, phy: u8, devad: u8, reg: u16) -> Option<
    (Result<u16, E>, int),
> {
    match mmd_select_run(t, i, phy, devad, reg) {
        None => None,
        Some((Err(e), j)) => Some((Err(e), j)),
        Some((Ok(_), j)) => match read_at(t, j, phy, regs::REG_MMDAD) {
            None => None,
            Some(r) => Some((r, j + 1)),
        },
    }
}

/// [`mmd_write`]: select, then write `value` to `MMDAD`.
pub open spec fn mmd_write_run<E>(
    t: Seq<MdioOp<E>>,
    i: int,
    phy: u8,
    devad: u8,
    reg: u16,
    value: u16,
) -> Option<(Result<(), E>, int)> {
    match mmd_select_run(t, i, phy, devad, reg) {
        None => None,
        Some((Err(e), j)) => Some((Err(e), j)),
        Some((Ok(_), j)) => match write_at(t, j, phy, regs::REG_MMDAD, value) {
            None => None,
            Some(r) => Some((r, j + 1)),
        },
    }
}

/// [`mmd_rmw`]: an MMD read, then an MMD write of [`rmw_value`].
pub open spec fn mmd_rmw_run<E>(
    t: Seq<MdioOp<E>>,
    i: int,
    phy: u8,
    devad: u8,
    reg: u16,
    clear_mask: u16,
    set_mask: u16,
) -> Option<(Result<(), E>, int)> {
    match mmd_read_run(t, i, phy, devad, reg) {
        None => None,
        Some((Err(e), j)) => Some((Err(e), j)),
        Some((Ok(current), j)) => mmd_write_run(
            t,
            j,
            phy,
            devad,
            reg,
            rmw_value(current, clear_mask, set_mask),
        ),
    }
}

/// An MMD register selection found in a transcript is unchanged when the
/// transcript grows.
pub proof fn lemma_mmd_select_run_extends<E>(
    t: Seq<MdioOp<E>>,
    t2: Seq<MdioOp<E>>,
    i: int,
    phy: u8,
    devad: u8,
    reg: u16,
)
    requires
        extends(t2, t),
        mmd_select_run(t, i, phy, devad, reg) is Some,
    ensures
        mmd_select_run(t2, i, phy, devad, reg) == mmd_select_run(t, i, phy, devad, reg),
{
    assert(t2[i] == t[i]);
    if i + 1 < t.len() {
        assert(t2[i + 1] == t[i + 1]);
    }
    if i + 2 < t.len() {
        assert(t2[i + 2] == t[i + 2]);
    }
}

/// An MMD read found in a transcript is unchanged when the transcript grows.
pub proof fn lemma_mmd_read_run_extends<E>(
    t: Seq<MdioOp<E>>,
    t2: Seq<MdioOp<E>>,
    i: int,
    phy: u8,
    devad: u8,
    reg: u16,
)
    requires
        extends(t2, t),
        mmd_read_run(t, i, phy, devad, reg) is Some,
    ensures
        mmd_read_run(t2, i, phy, devad, reg) == mmd_read_run(t, i, phy, devad, reg),
{
    lemma_mmd_select_run_extends(t, t2, i, phy, devad, reg);
    if i + 3 < t.len() {
        assert(t2[i + 3] == t[i + 3]);
    }
}

/// An MMD write found in a transcript is unchanged when the transcript grows.
pub proof fn lemma_mmd_write_run_extends<E>(
    t: Seq<MdioOp<E>>,
    t2: Seq<MdioOp<E>>,
    i: int,
    phy: u8,
    devad: u8,
    reg: u16,
    value: u16,
)
    requires
        extends(t2, t),
        mmd_write_run(t, i, phy, devad, reg, value) is Some,
    ensures
        mmd_write_run(t2, i, phy, devad, reg, value) == mmd_write_run(t, i, phy, devad, reg, value),
{
    lemma_mmd_select_run_extends(t, t2, i, phy, devad, reg);
    if i + 3 < t.len() {
        assert(t2[i + 3] == t[i + 3]);
    }
}

/// Steps 1-3 of the indirection.
fn mmd_select<M: MdioBus>(mdio: &mut M, phy_addr: u8, devad: u8, reg: u16) -> (r: Result<
    (),
    M::Error,
>)
    ensures
        extends(final(mdio).transcript(), old(mdio).transcript()),
        mmd_select_run(
            final(mdio).transcript(),
            old(mdio).transcript().len() as int,
            phy_addr,
            devad,
            reg,
        ) == Some((r, final(mdio).transcript().len() as int)),
{
    let devad_field = (devad as u16) & regs::MMDCTRL_DEVAD_MASK;
    mdio.write(phy_addr, regs::REG_MMDCTRL, regs::MMDCTRL_FNCTN_ADDR | devad_field)?;
    mdio.write(phy_addr, regs::REG_MMDAD, reg)?;
    mdio.write(phy_addr, regs::REG_MMDCTRL, regs::MMDCTRL_FNCTN_DATA | devad_field)
}

/// Read a 16-bit MMD register at `(devad, reg)`.
pub fn mmd_read<M: MdioBus>(mdio: &mut M, phy_addr: u8, devad: u8, reg: u16) -> (r: Result<
    u16,
    M::Error,
>)
    ensures
        extends(final(mdio).transcript(), old(mdio).transcript()),
        mmd_read_run(
            final(mdio).transcript(),
            old(mdio).transcript().len() as int,
            phy_addr,
            devad,
            reg,
        ) == Some((r, final(mdio).transcript().len() as int)),
{
    let ghost t0 = mdio.transcript();
    mmd_select(mdio, phy_addr, devad, reg)?;
    let ghost t1 = mdio.transcript();
    let r = mdio.read(phy_addr, regs::REG_MMDAD);
    proof {
        lemma_mmd_select_run_extends(t1, mdio.transcript(), t0.len() as int, phy_addr, devad, reg);
    }
    r
}

/// Write a 16-bit value to the MMD register at `(devad, reg)`.
pub fn mmd_write<M: MdioBus>(
    mdio: &mut M,
    phy_addr: u8,
    devad: u8,
    reg: u16,
    value: u16,
) -> (r: Result<(), M::Error>)
    ensures
        extends(final(mdio).transcript(), old(mdio).transcript()),
        mmd_write_run(
            final(mdio).transcript(),
            old(mdio).transcript().len() as int,
            phy_addr,
            devad,
            reg,
            value,
        ) == Some((r, final(mdio).transcript().len() as int)),
{
    let ghost t0 = mdio.transcript();
    mmd_select(mdio, phy_addr, devad, reg)?;
    let ghost t1 = mdio.transcript();
    let r = mdio.write(phy_addr, regs::REG_MMDAD, value);
    proof {
        lemma_mmd_select_run_extends(t1, mdio.transcript(), t0.len() as int, phy_addr, devad, reg);
    }
    r
}

/// Read-modify-write of an MMD register: clears `clear_mask` and then sets
/// `set_mask` (set takes precedence).
pub fn mmd_rmw<M: MdioBus>(
    mdio: &mut M,
    phy_addr: u8,
    devad: u8,
    reg: u16,
    clear_mask: u16,
    set_mask: u16,
) -> (r: Result<(), M::Error>)
    ensures
        extends(final(mdio).transcript(), old(mdio).transcript()),
        mmd_rmw_run(
            final(mdio).transcript(),
            old(mdio).transcript().len() as int,
            phy_addr,
            devad,
            reg,
            clear_mask,
            set_mask,
        ) == Some((r, final(mdio).transcript().len() as int)),
{
    let ghost t0 = mdio.transcript();
    let current = mmd_read(mdio, phy_addr, devad, reg)?;
    let ghost t1 = mdio.transcript();
    let next = (current & !clear_mask) | set_mask;
    let r = mmd_write(mdio, phy_addr, devad, reg, next);
    proof {
        lemma_mmd_read_run_extends(t1, mdio.transcript(), t0.len() as int, phy_addr, devad, reg);
    }
    r
}

} // verus!

verus! {

/// A read-modify-write sets every bit of `set_mask`, clears every bit of
/// `clear_mask` that `set_mask` does not set, and keeps every other bit of
/// the value read.
pub proof fn lemma_rmw_value_bits(current: u16, clear_mask: u16, set_mask: u16)
    ensures
        rmw_value(current, clear_mask, set_mask) & set_mask == set_mask,
        rmw_value(current, clear_mask, set_mask) & (clear_mask & !set_mask) == 0,
        rmw_value(current, clear_mask, set_mask) & !(clear_mask | set_mask) == current & !(
        clear_mask | set_mask),
{
    assert(((current & !clear_mask) | set_mask) & set_mask == set_mask && ((current & !clear_mask)
        | set_mask) & (clear_mask & !set_mask) == 0 && ((current & !clear_mask) | set_mask) & !(
    clear_mask | set_mask) == current & !(clear_mask | set_mask)) by (bit_vector);
}

} // verus!

verus! {

/// The three selection writes go to the PHY address given.
proof fn lemma_mmd_select_run_addressed<E>(t: Seq<MdioOp<E>>, i: int, phy: u8, devad: u8, reg: u16)
    requires
        mmd_select_run(t, i, phy, devad, reg) is Some,
    ensures
        addressed_to(t, i, mmd_select_run(t, i, phy, devad, reg).unwrap().1, phy),
{
    assert(op_phy(t[i]) == phy);
    if i + 1 < t.len() && write_at(t, i + 1, phy, regs::REG_MMDAD, reg) is Some {
        assert(op_phy(t[i + 1]) == phy);
    }
    if i + 2 < t.len() && write_at(
        t,
        i + 2,
        phy,
        regs::REG_MMDCTRL,
        regs::MMDCTRL_FNCTN_DATA | devad_field(devad),
    ) is Some {
        assert(op_phy(t[i + 2]) == phy);
    }
}

/// Every transaction of an MMD access goes to the PHY address given.
pub proof fn lemma_mmd_runs_addressed<E>(
    t: Seq<MdioOp<E>>,
    i: int,
    phy: u8,
    devad: u8,
    reg: u16,
    value: u16,
    clear_mask: u16,
    set_mask: u16,
)
    ensures
        mmd_read_run(t, i, phy, devad, reg) is Some ==> addressed_to(
            t,
            i,
            mmd_read_run(t, i, phy, devad, reg).unwrap().1,
            phy,
        ),
        mmd_write_run(t, i, phy, devad, reg, value) is Some ==> addressed_to(
            t,
            i,
            mmd_write_run(t, i, phy, devad, reg, value).unwrap().1,
            phy,
        ),
        mmd_rmw_run(t, i, phy, devad, reg, clear_mask, set_mask) is Some ==> addressed_to(
            t,
            i,
            mmd_rmw_run(t, i, phy, devad, reg, clear_mask, set_mask).unwrap().1,
            phy,
        ),
{
    if mmd_select_run(t, i, phy, devad, reg) is Some {
        lemma_mmd_select_run_addressed(t, i, phy, devad, reg);
        let j = mmd_select_run(t, i, phy, devad, reg).unwrap().1;
        if read_at(t, j, phy, regs::REG_MMDAD) is Some {
            assert(op_phy(t[j]) == phy);
            crate::mdio::lemma_addressed_to_join(t, i, j, j + 1, phy);
        }
        if write_at(t, j, phy, regs::REG_MMDAD, value) is Some {
            assert(op_phy(t[j]) == phy);
            crate::mdio::lemma_addressed_to_join(t, i, j, j + 1, phy);
        }
        if let Some((Ok(current), k)) = mmd_read_run(t, i, phy, devad, reg) {
            let w = rmw_value(current, clear_mask, set_mask);
            if mmd_select_run(t, k, phy, devad, reg) is Some {
                lemma_mmd_select_run_addressed(t, k, phy, devad, reg);
                let l = mmd_select_run(t, k, phy, devad, reg).unwrap().1;
                crate::mdio::lemma_addressed_to_join(t, i, k, l, phy);
                if write_at(t, l, phy, regs::REG_MMDAD, w) is Some {
                    assert(op_phy(t[l]) == phy);
                    crate::mdio::lemma_addressed_to_join(t, i, l, l + 1, phy);
                }
            }
        }
    }
}

} // verus!

verus! {

/// The Annex 22D frames of an MMD access, starting at `i`: `MMDCTRL`
/// (register `0x0D`) gets the device address (bits 4:0) in address mode,
/// `MMDAD` (register `0x0E`) the register address, `MMDCTRL` the device
/// address with function bits 15:14 = `01` (data), and then `MMDAD` is read
/// (for a read, whose answer is the result) or written with the value.
pub proof fn lemma_mmd_frames<E>(
    t: Seq<MdioOp<E>>,
    i: int,
    phy: u8,
    devad: u8,
    reg: u16,
    value: u16,
)
    ensures
        mmd_read_run(t, i, phy, devad, reg) matches Some((Ok(_), _)) ==> {
            &&& write_at(t, i, phy, 0x0Du8, (devad as u16) & 0x001Fu16) is Some
            &&& write_at(t, i + 1, phy, 0x0Eu8, reg) is Some
            &&& write_at(t, i + 2, phy, 0x0Du8, 0x4000u16 | ((devad as u16) & 0x001Fu16)) is Some
            &&& mmd_read_run(t, i, phy, devad, reg) == Some((read_at(t, i + 3, phy, 0x0Eu8).unwrap(), i + 4))
        },
        mmd_write_run(t, i, phy, devad, reg, value) matches Some((Ok(_), _)) ==> {
            &&& write_at(t, i, phy, 0x0Du8, (devad as u16) & 0x001Fu16) is Some
            &&& write_at(t, i + 1, phy, 0x0Eu8, reg) is Some
            &&& write_at(t, i + 2, phy, 0x0Du8, 0x4000u16 | ((devad as u16) & 0x001Fu16)) is Some
            &&& write_at(t, i + 3, phy, 0x0Eu8, value) is Some
            &&& mmd_write_run(t, i, phy, devad, reg, value).unwrap().1 == i + 4
        },
{
    let d = (devad as u16) & 0x001Fu16;
    assert(0x0000u16 | d == d) by (bit_vector);
}

} // verus!
