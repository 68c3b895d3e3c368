//! MDIO bus trait — the interface between MAC and PHY hardware — and the
//! transcript model in which the drivers' contracts are stated.
//!
//! Every transaction a driver issues on the bus is recorded, with the bus's
//! answer, in the bus's `transcript`. A driver operation is specified by a
//! spec function that reads such a transcript from a given position: it
//! checks that each transaction is the one the operation has to issue next
//! (given the answers to the previous ones), and says what the operation
//! returns. A read answer is whatever the hardware says; everything else —
//! which registers are touched, in what order, with what values, and what is
//! returned — is fixed by the specification.
use vstd::prelude::*;

verus! {

/// One MDIO transaction, together with the bus's answer to it.
#[allow(inconsistent_fields)]
pub enum MdioOp<E> {
    /// A Clause 22 register read and the value (or bus error) it returned.
    Read { phy: u8, reg: u8, result: Result<u16, E> },
    /// A Clause 22 register write and whether the bus accepted it.
    Write { phy: u8, reg: u8, value: u16, result: Result<(), E> },
}

/// MDIO bus for reading/writing PHY registers.
///
/// Every MAC that supports MDIO implements this trait. PHY drivers are
/// generic over `MdioBus` and never access hardware directly.
///
/// Register addresses follow IEEE 802.3 Clause 22: PHY address 0-31,
/// register address 0-31.
///
/// An implementation records each transaction in `transcript`: a read or a
/// write appends exactly one entry holding the request and the answer, and
/// leaves the earlier entries alone.
pub trait MdioBus {
    /// Error type for bus operations.
    type Error;

    /// Every transaction issued on this bus so far, oldest first.
    spec fn transcript(&self) -> Seq<MdioOp<Self::Error>>;

    /// Read a 16-bit PHY register.
    fn read(&mut self, phy_addr: u8, reg_addr: u8) -> (r: Result<u16, Self::Error>)
        ensures
            final(self).transcript() == old(self).transcript().push(
                MdioOp::Read { phy: phy_addr, reg: reg_addr, result: r },
            ),
    ;

    /// Write a 16-bit PHY register.
    fn write(&mut self, phy_addr: u8, reg_addr: u8, value: u16) -> (r: Result<(), Self::Error>)
        ensures
            final(self).transcript() == old(self).transcript().push(
                MdioOp::Write { phy: phy_addr, reg: reg_addr, value, result: r },
            ),
    ;
}

/// `later` holds every transaction of `earlier`, in place, and possibly more.
pub open spec fn extends<E>(later: Seq<MdioOp<E>>, earlier: Seq<MdioOp<E>>) -> bool {
    &&& earlier.len() <= later.len()
    &&& forall|k: int| 0 <= k < earlier.len() ==> #[trigger] later[k] == earlier[k]
}

/// The answer of the transaction at position `i` of `t`, if it is a read of
/// register `reg` of PHY `phy`; `None` if there is no such transaction there.
pub open spec fn read_at<E>(t: Seq<MdioOp<E>>, i: int, phy: u8, reg: u8) -> Option<Result<u16, E>> {
    if 0 <= i < t.len() {
        match t[i] {
            MdioOp::Read { phy: p, reg: g, result } => if p == phy && g == reg {
                Some(result)
            } else {
                None
            },
            _ => None,
        }
    } else {
        None
    }
}

/// The answer of the transaction at position `i` of `t`, if it is a write
/// of `value` to register `reg` of PHY `phy`; `None` otherwise.
pub open spec fn write_at<E>(t: Seq<MdioOp<E>>, i: int, phy: u8, reg: u8, value: u16) -> Option<
    Result<(), E>,
> {
    if 0 <= i < t.len() {
        match t[i] {
            MdioOp::Write { phy: p, reg: g, value: v, result } => if p == phy && g == reg && v
                == value {
                Some(result)
            } else {
                None
            },
            _ => None,
        }
    } else {
        None
    }
}

/// Extension is transitive.
pub proof fn lemma_extends_trans<E>(a: Seq<MdioOp<E>>, b: Seq<MdioOp<E>>, c: Seq<MdioOp<E>>)
    requires
        extends(b, a),
        extends(c, b),
    ensures
        extends(c, a),
{
    assert forall|k: int| 0 <= k < a.len() implies #[trigger] c[k] == a[k] by {
        assert(c[k] == b[k]);
    }
}

/// The PHY address a transaction went to.
pub open spec fn op_phy<E>(op: MdioOp<E>) -> u8 {
    match op {
        MdioOp::Read { phy, .. } => phy,
        MdioOp::Write { phy, .. } => phy,
    }
}

/// Every transaction at positions `i..j` of `t` went to PHY `phy`.
pub open spec fn addressed_to<E>(t: Seq<MdioOp<E>>, i: int, j: int, phy: u8) -> bool {
    forall|k: int| i <= k < j ==> op_phy(#[trigger] t[k]) == phy
}

/// Two neighbouring stretches addressed to one PHY make one.
pub proof fn lemma_addressed_to_join<E>(t: Seq<MdioOp<E>>, i: int, j: int, k: int, phy: u8)
    requires
        addressed_to(t, i, j, phy),
        addressed_to(t, j, k, phy),
    ensures
        addressed_to(t, i, k, phy),
{
    assert forall|m: int| i <= m < k implies op_phy(#[trigger] t[m]) == phy by {
        if m < j {
            assert(i <= m < j);
        } else {
            assert(j <= m < k);
        }
    }
}

} // verus!
