//! A scripted in-memory MDIO bus, for exercising drivers without hardware.
//!
//! Reads answer with the scripted values in order; writes are accepted and
//! logged; one call (counting reads and writes from 0) can be made to fail.
//! The bus keeps the transcript the [`MdioBus`] contract speaks of.
use crate::mdio::{MdioBus, MdioOp};
use vstd::prelude::*;

verus! {

/// The error a [`MockMdio`] reports.
#[derive(Debug, Clone, Copy, PartialEq, Eq, Structural)]
pub struct MockError;

/// A bus call as a [`MockMdio`] logs it.
#[derive(Debug, Clone, Copy, PartialEq, Eq, Structural)]
pub enum MockOp {
    Read { phy: u8, reg: u8 },
    Write { phy: u8, reg: u8, value: u16 },
}

/// Scripted MDIO bus.
pub struct MockMdio {
    /// Values the successive reads return.
    pub reads: Vec<u16>,
    /// How many scripted values have been returned.
    pub read_idx: usize,
    /// Every accepted write, as `(phy, reg, value)`.
    pub writes: Vec<(u8, u8, u16)>,
    /// Every call that did not fail, in order.
    pub ops: Vec<MockOp>,
    /// The call (reads and writes counted together, from 0) that fails.
    pub fail_at: Option<usize>,
    /// How many calls have been made (saturating).
    pub call_count: usize,
    /// Every transaction with its answer.
    pub log: Ghost<Seq<MdioOp<MockError>>>,
}

impl MockMdio {
    /// A bus answering reads with `reads`, in order, that never fails while
    /// scripted values remain.
    pub fn new(reads: Vec<u16>) -> (r: Self)
        ensures
            r.reads == reads,
            r.read_idx == 0,
            r.writes@ == Seq::<(u8, u8, u16)>::empty(),
            r.ops@ == Seq::<MockOp>::empty(),
            r.fail_at is None,
            r.call_count == 0,
            r.log@ == Seq::<MdioOp<MockError>>::empty(),
            r.replays(),
    {
        let r = MockMdio {
            reads,
            read_idx: 0,
            writes: Vec::new(),
            ops: Vec::new(),
            fail_at: None,
            call_count: 0,
            log: Ghost(Seq::empty()),
        };
        proof {
            assert(r.reads@.take(0) =~= Seq::<u16>::empty());
        }
        r
    }

    /// Like [`MockMdio::new`], but call number `fail_at` fails.
    pub fn with_failure(reads: Vec<u16>, fail_at: usize) -> (r: Self)
        ensures
            r.reads == reads,
            r.read_idx == 0,
            r.writes@ == Seq::<(u8, u8, u16)>::empty(),
            r.ops@ == Seq::<MockOp>::empty(),
            r.fail_at == Some(fail_at),
            r.call_count == 0,
            r.log@ == Seq::<MdioOp<MockError>>::empty(),
            r.replays(),
    {
        let r = MockMdio {
            reads,
            read_idx: 0,
            writes: Vec::new(),
            ops: Vec::new(),
            fail_at: Some(fail_at),
            call_count: 0,
            log: Ghost(Seq::empty()),
        };
        proof {
            assert(r.reads@.take(0) =~= Seq::<u16>::empty());
        }
        r
    }

    /// Whether the current call is the one scripted to fail (counting
    /// stops at `usize::MAX`, and from there on no call is made to fail).
    pub open spec fn failing_now(&self) -> bool {
        self.call_count < usize::MAX && self.fail_at == Some(self.call_count)
    }

    /// The bus's fields agree with its transcript: the successful reads
    /// returned the first `read_idx` scripted values in order, `writes` and
    /// `ops` hold exactly the served calls, `call_count` counts the calls,
    /// and a call failed exactly when it was the scripted failing call or a
    /// read past the end of the script.
    pub open spec fn replays(&self) -> bool {
        let log = self.log@;
        &&& self.read_idx <= self.reads.len()
        &&& answered_reads(log) == self.reads@.take(self.read_idx as int)
        &&& accepted_writes(log) == self.writes@
        &&& served_ops(log) == self.ops@
        &&& self.call_count == (if log.len() < usize::MAX {
            log.len()
        } else {
            usize::MAX as nat
        })
        &&& forall|k: int|
            0 <= k < log.len() ==> (failed(#[trigger] log[k]) <==> (fails_at(self.fail_at, k) || (
            log[k] is Read && answered_reads(log.take(k)).len() >= self.reads.len())))
    }

    /// Count one call.
    fn count_call(&mut self) -> (fails: bool)
        ensures
            fails == old(self).failing_now(),
            final(self).call_count == (if old(self).call_count < usize::MAX {
                old(self).call_count + 1
            } else {
                old(self).call_count as int
            }),
            final(self).reads == old(self).reads,
            final(self).read_idx == old(self).read_idx,
            final(self).writes == old(self).writes,
            final(self).ops == old(self).ops,
            final(self).fail_at == old(self).fail_at,
            final(self).log == old(self).log,
    {
        let fails = self.call_count < usize::MAX && match self.fail_at {
            Some(k) => k == self.call_count,
            None => false,
        };
        if self.call_count < usize::MAX {
            self.call_count = self.call_count + 1;
        }
        fails
    }
}

impl MdioBus for MockMdio {
    type Error = MockError;

    open spec fn transcript(&self) -> Seq<MdioOp<MockError>> {
        self.log@
    }

    /// The next scripted value; an error on the failing call or once the
    /// script is exhausted.
    fn read(&mut self, phy_addr: u8, reg_addr: u8) -> (r: Result<u16, MockError>)
        ensures
            r == (if old(self).failing_now() || old(self).read_idx >= old(self).reads.len() {
                Err(MockError)
            } else {
                Ok(old(self).reads[old(self).read_idx as int])
            }),
            final(self).read_idx == (if r is Ok {
                old(self).read_idx + 1
            } else {
                old(self).read_idx as int
            }),
            final(self).ops@ == (if r is Ok {
                old(self).ops@.push(MockOp::Read { phy: phy_addr, reg: reg_addr })
            } else {
                old(self).ops@
            }),
            final(self).reads == old(self).reads,
            final(self).writes == old(self).writes,
            final(self).fail_at == old(self).fail_at,
            final(self).call_count == (if old(self).call_count < usize::MAX {
                old(self).call_count + 1
            } else {
                old(self).call_count as int
            }),
            old(self).replays() ==> final(self).replays(),
    {
        let ghost before = *self;
        let fails = self.count_call();
        let r = if fails || self.read_idx >= self.reads.len() {
            Err(MockError)
        } else {
            let v = self.reads[self.read_idx];
            self.read_idx = self.read_idx + 1;
            self.ops.push(MockOp::Read { phy: phy_addr, reg: reg_addr });
            Ok(v)
        };
        proof {
            let op = MdioOp::Read { phy: phy_addr, reg: reg_addr, result: r };
            lemma_log_push(self.log@, op);
            self.log@ = self.log@.push(op);
            if before.replays() {
                if r is Ok {
                    assert(before.reads@.take(before.read_idx as int).push(
                        before.reads@[before.read_idx as int],
                    ) =~= self.reads@.take(self.read_idx as int));
                }
                assert forall|k: int| 0 <= k < self.log@.len() implies (failed(
                    #[trigger] self.log@[k],
                ) <==> (fails_at(self.fail_at, k) || (self.log@[k] is Read && answered_reads(
                    self.log@.take(k),
                ).len() >= self.reads.len()))) by {
                    if k < before.log@.len() {
                        assert(self.log@[k] == before.log@[k]);
                    }
                }
            }
        }
        r
    }

    /// Accepted and logged, except on the failing call.
    fn write(&mut self, phy_addr: u8, reg_addr: u8, value: u16) -> (r: Result<(), MockError>)
        ensures
            r == (if old(self).failing_now() {
                Err(MockError)
            } else {
                Ok(())
            }),
            final(self).writes@ == (if r is Ok {
                old(self).writes@.push((phy_addr, reg_addr, value))
            } else {
                old(self).writes@
            }),
            final(self).ops@ == (if r is Ok {
                old(self).ops@.push(MockOp::Write { phy: phy_addr, reg: reg_addr, value })
            } else {
                old(self).ops@
            }),
            final(self).reads == old(self).reads,
            final(self).read_idx == old(self).read_idx,
            final(self).fail_at == old(self).fail_at,
            final(self).call_count == (if old(self).call_count < usize::MAX {
                old(self).call_count + 1
            } else {
                old(self).call_count as int
            }),
            old(self).replays() ==> final(self).replays(),
    {
        let ghost before = *self;
        let fails = self.count_call();
        let r = if fails {
            Err(MockError)
        } else {
            self.writes.push((phy_addr, reg_addr, value));
            self.ops.push(MockOp::Write { phy: phy_addr, reg: reg_addr, value });
            Ok(())
        };
        proof {
            let op = MdioOp::Write { phy: phy_addr, reg: reg_addr, value, result: r };
            lemma_log_push(self.log@, op);
            self.log@ = self.log@.push(op);
            if before.replays() {
                assert forall|k: int| 0 <= k < self.log@.len() implies (failed(
                    #[trigger] self.log@[k],
                ) <==> (fails_at(self.fail_at, k) || (self.log@[k] is Read && answered_reads(
                    self.log@.take(k),
                ).len() >= self.reads.len()))) by {
                    if k < before.log@.len() {
                        assert(self.log@[k] == before.log@[k]);
                    }
                }
            }
        }
        r
    }
}

/// Whether a transaction failed.
pub open spec fn failed(op: MdioOp<MockError>) -> bool {
    match op {
        MdioOp::Read { result, .. } => result is Err,
        MdioOp::Write { result, .. } => result is Err,
    }
}

/// Call number `k` is the one scripted to fail.
pub open spec fn fails_at(fail_at: Option<usize>, k: int) -> bool {
    k < usize::MAX && fail_at == Some(k as usize)
}

/// The values the successful reads of `log` returned, in order.
pub open spec fn answered_reads(log: Seq<MdioOp<MockError>>) -> Seq<u16>
    decreases log.len(),
{
    if log.len() == 0 {
        Seq::empty()
    } else {
        let earlier = answered_reads(log.drop_last());
        match log.last() {
            MdioOp::Read { result: Ok(v), .. } => earlier.push(v),
            _ => earlier,
        }
    }
}

/// The successful writes of `log`, in order.
pub open spec fn accepted_writes(log: Seq<MdioOp<MockError>>) -> Seq<(u8, u8, u16)>
    decreases log.len(),
{
    if log.len() == 0 {
        Seq::empty()
    } else {
        let earlier = accepted_writes(log.drop_last());
        match log.last() {
            MdioOp::Write { phy, reg, value, result: Ok(_) } => earlier.push((phy, reg, value)),
            _ => earlier,
        }
    }
}

/// The successful calls of `log`, in order, as a [`MockMdio`] logs them.
pub open spec fn served_ops(log: Seq<MdioOp<MockError>>) -> Seq<MockOp>
    decreases log.len(),
{
    if log.len() == 0 {
        Seq::empty()
    } else {
        let earlier = served_ops(log.drop_last());
        match log.last() {
            MdioOp::Read { phy, reg, result: Ok(_) } => earlier.push(MockOp::Read { phy, reg }),
            MdioOp::Write { phy, reg, value, result: Ok(_) } => earlier.push(
                MockOp::Write { phy, reg, value },
            ),
            _ => earlier,
        }
    }
}

/// Appending one transaction to a log.
proof fn lemma_log_push(log: Seq<MdioOp<MockError>>, op: MdioOp<MockError>)
    ensures
        log.push(op).drop_last() == log,
        log.push(op).last() == op,
        log.push(op).take(log.len() as int) == log,
        forall|k: int| 0 <= k <= log.len() ==> #[trigger] log.push(op).take(k) == log.take(k),
{
    assert(log.push(op).drop_last() =~= log);
    assert(log.push(op).take(log.len() as int) =~= log);
    assert forall|k: int| 0 <= k <= log.len() implies #[trigger] log.push(op).take(k) == log.take(
        k,
    ) by {
        assert(log.push(op).take(k) =~= log.take(k));
    }
}

} // verus!
