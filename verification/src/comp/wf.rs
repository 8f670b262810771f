//! What holds of the pools and registers in every state that the machine
//! reaches, and the proofs that issuing and running a cycle keep it.

use super::pc::{Instrution, PcView};
use super::reg::{default_regs, Reg, RegState, Tag};
use super::rs::{
    address_of, candidate, destination, empty_pools, empty_slot, executed, executed_slot,
    first_free, first_ready, is_first_free, is_first_ready, issued_slot, latency_of, outcome,
    published, ready, registers_valid, regs_issued, regs_updated, snooped_slot, sources,
    unit_of, RsType, RsView, Slot,
};
use vstd::prelude::*;

verus! {

/// Whether an operand is in exactly one of its two states: known, or
/// waiting for a producer.
pub open spec fn one_of(value: Option<i32>, wait: RegState) -> bool {
    (value is Some) != (wait is Some)
}

/// Whether a slot of a pool of the given kind is in order.
///
/// A free slot holds nothing. A busy slot holds an operation of its pool
/// with no more time left than the operation takes; each operand that the
/// operation has is either known or waited for, never both and never
/// neither, and a load has no second operand; the address is the one that
/// its operands give; and a result is kept only by a slot that has finished,
/// and is what its operation computes.
pub open spec fn slot_wf(kind: RsType, slot: Slot) -> bool {
    if slot.busy {
        &&& slot.op is Some
        &&& unit_of(slot.op->Some_0.opcode()) == kind
        &&& 0 <= slot.time <= latency_of(slot.op->Some_0.opcode())
        &&& one_of(slot.vj, slot.qj)
        &&& if kind == RsType::Load {
            slot.vk is None && slot.qk is None
        } else {
            one_of(slot.vk, slot.qk)
        }
        &&& slot.addr == address_of(slot.op, slot.vj, slot.vk)
        &&& slot.result is Some ==> {
            &&& kind != RsType::Store
            &&& slot.time == 0
            &&& ready(kind, slot)
            &&& slot.result == Some(outcome(slot))
        }
    } else {
        slot == empty_slot()
    }
}

/// Whether the producer that a register or an operand waits for is at
/// work: its tag names a busy slot of a pool that produces values.
pub open spec fn live(rs: RsView, state: RegState) -> bool {
    match state {
        Some((kind, i)) => {
            &&& kind != RsType::Store
            &&& (i as int) < rs.pool(kind).len()
            &&& rs.pool(kind)[i as int].busy
        },
        None => true,
    }
}

/// Whether every slot of the pool of the given kind is in order and waits
/// only for producers that are at work.
pub open spec fn pool_wf(rs: RsView, kind: RsType) -> bool {
    forall|i: int|
        0 <= i < rs.pool(kind).len() ==> {
            &&& slot_wf(kind, #[trigger] rs.pool(kind)[i])
            &&& live(rs, rs.pool(kind)[i].qj)
            &&& live(rs, rs.pool(kind)[i].qk)
        }
}

/// Whether the pools are in order.
pub open spec fn pools_wf(rs: RsView) -> bool {
    &&& rs.sized()
    &&& pool_wf(rs, RsType::Load)
    &&& pool_wf(rs, RsType::Store)
    &&& pool_wf(rs, RsType::Add)
    &&& pool_wf(rs, RsType::Mul)
}

/// Whether pools and registers are in order together: the pools are, there
/// are 32 registers, and each register that waits, waits for a producer
/// that is at work.
pub open spec fn coherent(rs: RsView, regs: Seq<Reg>) -> bool {
    &&& pools_wf(rs)
    &&& regs.len() == 32
    &&& forall|r: int| 0 <= r < 32 ==> live(rs, (#[trigger] regs[r]).state)
}

/// The machine is in order after a reset.
pub proof fn lemma_reset_coherent()
    ensures
        coherent(empty_pools(), default_regs()),
{
}

/// Every slot of pools that are in order is in order.
pub proof fn lemma_slot_wf(rs: RsView, kind: RsType, i: int)
    requires
        pools_wf(rs),
        0 <= i < rs.pool(kind).len(),
    ensures
        slot_wf(kind, rs.pool(kind)[i]),
{
    match kind {
        RsType::Load => {
            assert(pool_wf(rs, RsType::Load));
        },
        RsType::Store => {
            assert(pool_wf(rs, RsType::Store));
        },
        RsType::Add => {
            assert(pool_wf(rs, RsType::Add));
        },
        RsType::Mul => {
            assert(pool_wf(rs, RsType::Mul));
        },
    }
}

/// A pool keeps its length through a cycle of work, and each of its slots
/// is then what `executed_slot` makes of it if the unit chose it, and as
/// before if not.
pub proof fn lemma_executed(pool: Seq<Slot>, kind: RsType)
    ensures
        executed(pool, kind).len() == pool.len(),
        forall|i: int|
            0 <= i < pool.len() ==> (#[trigger] executed(pool, kind)[i]) == if first_ready(
                pool,
                kind,
            ) == Some(i) {
                executed_slot(kind, pool[i])
            } else {
                pool[i]
            },
        first_ready(pool, kind) matches Some(i) ==> is_first_ready(pool, kind, i),
        candidate(pool, kind) matches Some(i) ==> is_first_ready(pool, kind, i) && pool[i].time
            <= 0 && kind != RsType::Store,
{
}

/// Only a store leaves its slot by executing. Every other slot that was
/// busy stays busy through the work of its unit, and waits for the same
/// producers.
pub proof fn lemma_executed_slot(kind: RsType, slot: Slot)
    requires
        slot_wf(kind, slot),
        ready(kind, slot),
    ensures
        slot_wf(kind, executed_slot(kind, slot)),
        executed_slot(kind, slot).qj == slot.qj,
        executed_slot(kind, slot).qk == slot.qk,
        kind != RsType::Store ==> executed_slot(kind, slot).busy,
{
}

/// A slot in order is in order after it has seen the bus, and stays busy
/// or free as it was. It waits for no producer that it did not wait for
/// before, and no longer for the one on the bus.
pub proof fn lemma_snooped_slot(kind: RsType, slot: Slot, tag: Tag, value: i32)
    requires
        slot_wf(kind, slot),
    ensures
        slot_wf(kind, snooped_slot(slot, tag, value)),
        snooped_slot(slot, tag, value).busy == slot.busy,
        snooped_slot(slot, tag, value).qj != Some(tag),
        snooped_slot(slot, tag, value).qk != Some(tag),
        snooped_slot(slot, tag, value).qj is Some ==> snooped_slot(slot, tag, value).qj
            == slot.qj,
        snooped_slot(slot, tag, value).qk is Some ==> snooped_slot(slot, tag, value).qk
            == slot.qk,
{
}

/// What a cycle does to one slot: the slot of pool `kind` at index `i`
/// after the cycle, from the slot before it.
pub open spec fn updated_slot(rs: RsView, kind: RsType, i: int) -> Slot {
    let slot = rs.pool(kind)[i];
    let worked = if first_ready(rs.pool(kind), kind) == Some(i) {
        executed_slot(kind, slot)
    } else {
        slot
    };
    match rs.bus() {
        Some((tag, value)) => if tag.0 == kind && tag.1 as int == i {
            empty_slot()
        } else {
            snooped_slot(worked, tag, value)
        },
        None => worked,
    }
}

/// A cycle keeps the sizes of the pools and changes each slot as
/// `updated_slot` says, and the tag on the bus names the slot that asked
/// for it.
pub proof fn lemma_updated(rs: RsView)
    requires
        rs.sized(),
    ensures
        rs.updated().sized(),
        forall|kind: RsType, i: int|
            0 <= i < rs.pool(kind).len() ==> (#[trigger] rs.updated().pool(kind)[i])
                == updated_slot(rs, kind, i),
        rs.bus() matches Some((tag, value)) ==> {
            &&& tag.0 != RsType::Store
            &&& candidate(rs.pool(tag.0), tag.0) == Some(tag.1 as int)
            &&& (tag.1 as int) < rs.pool(tag.0).len()
            &&& value == published(rs.pool(tag.0)[tag.1 as int])
        },
{
    lemma_executed(rs.load, RsType::Load);
    lemma_executed(rs.store, RsType::Store);
    lemma_executed(rs.add, RsType::Add);
    lemma_executed(rs.mul, RsType::Mul);
    assert forall|kind: RsType, i: int| 0 <= i < rs.pool(kind).len() implies (
    #[trigger] rs.updated().pool(kind)[i]) == updated_slot(rs, kind, i) by {
        match kind {
            RsType::Load => {},
            RsType::Store => {},
            RsType::Add => {},
            RsType::Mul => {},
        }
    }
}

/// Running the pools for a cycle keeps pools and registers in order.
pub proof fn lemma_update_coherent(rs: RsView, regs: Seq<Reg>)
    requires
        coherent(rs, regs),
    ensures
        coherent(rs.updated(), regs_updated(rs, regs)),
{
    lemma_updated(rs);
    let after = rs.updated();
    assert forall|kind: RsType, i: int| 0 <= i < rs.pool(kind).len() implies {
        &&& slot_wf(kind, #[trigger] after.pool(kind)[i])
        &&& live(after, after.pool(kind)[i].qj)
        &&& live(after, after.pool(kind)[i].qk)
    } by {
        lemma_update_slot(rs, kind, i);
    }
    assert(pool_wf(after, RsType::Load));
    assert(pool_wf(after, RsType::Store));
    assert(pool_wf(after, RsType::Add));
    assert(pool_wf(after, RsType::Mul));
    let regs_after = regs_updated(rs, regs);
    assert forall|r: int| 0 <= r < 32 implies live(after, (#[trigger] regs_after[r]).state) by {
        let state = regs_after[r].state;
        assert(live(rs, regs[r].state));
        if state is Some {
            assert(state == regs[r].state);
            lemma_stays_live(rs, state);
        }
    }
}

/// A producer that was at work and is not the one on the bus is at work
/// after the cycle.
pub proof fn lemma_stays_live(rs: RsView, state: RegState)
    requires
        pools_wf(rs),
        live(rs, state),
        state is Some,
        rs.bus() matches Some((tag, value)) ==> state != Some(tag),
    ensures
        live(rs.updated(), state),
{
    lemma_updated(rs);
    let (kind, i) = state->Some_0;
    let slot = rs.pool(kind)[i as int];
    assert(rs.updated().pool(kind)[i as int] == updated_slot(rs, kind, i as int));
    assert(slot_wf(kind, slot)) by {
        match kind {
            RsType::Load => {
                assert(pool_wf(rs, RsType::Load));
            },
            RsType::Store => {},
            RsType::Add => {
                assert(pool_wf(rs, RsType::Add));
            },
            RsType::Mul => {
                assert(pool_wf(rs, RsType::Mul));
            },
        }
    }
    if first_ready(rs.pool(kind), kind) == Some(i as int) {
        lemma_executed(rs.pool(kind), kind);
        lemma_executed_slot(kind, slot);
    }
}

/// One slot is in order after a cycle, and waits only for producers that
/// are then at work.
pub proof fn lemma_update_slot(rs: RsView, kind: RsType, i: int)
    requires
        pools_wf(rs),
        0 <= i < rs.pool(kind).len(),
    ensures
        slot_wf(kind, rs.updated().pool(kind)[i]),
        live(rs.updated(), rs.updated().pool(kind)[i].qj),
        live(rs.updated(), rs.updated().pool(kind)[i].qk),
{
    lemma_updated(rs);
    let slot = rs.pool(kind)[i];
    let after = rs.updated().pool(kind)[i];
    assert(after == updated_slot(rs, kind, i));
    assert(slot_wf(kind, slot) && live(rs, slot.qj) && live(rs, slot.qk)) by {
        match kind {
            RsType::Load => {
                assert(pool_wf(rs, RsType::Load));
            },
            RsType::Store => {
                assert(pool_wf(rs, RsType::Store));
            },
            RsType::Add => {
                assert(pool_wf(rs, RsType::Add));
            },
            RsType::Mul => {
                assert(pool_wf(rs, RsType::Mul));
            },
        }
    }
    let worked = if first_ready(rs.pool(kind), kind) == Some(i) {
        executed_slot(kind, slot)
    } else {
        slot
    };
    assert(slot_wf(kind, worked) && (worked.qj == slot.qj || worked == empty_slot()) && (worked.qk
        == slot.qk || worked == empty_slot())) by {
        if first_ready(rs.pool(kind), kind) == Some(i) {
            lemma_executed(rs.pool(kind), kind);
            lemma_executed_slot(kind, slot);
        }
    }
    match rs.bus() {
        Some((tag, value)) => {
            lemma_snooped_slot(kind, worked, tag, value);
            if after.qj is Some {
                lemma_stays_live(rs, after.qj);
            }
            if after.qk is Some {
                lemma_stays_live(rs, after.qk);
            }
        },
        None => {
            if after.qj is Some {
                lemma_stays_live(rs, after.qj);
            }
            if after.qk is Some {
                lemma_stays_live(rs, after.qk);
            }
        },
    }
}

/// Pools that are in order are in order after a cycle.
pub proof fn lemma_pools_update(rs: RsView)
    requires
        pools_wf(rs),
    ensures
        pools_wf(rs.updated()),
{
    lemma_update_coherent(rs, default_regs());
}

/// Pools that are in order are in order after every slot has seen a value
/// on the bus.
pub proof fn lemma_pools_snooped(rs: RsView, tag: Tag, value: i32)
    requires
        pools_wf(rs),
    ensures
        pools_wf(rs.snooped(tag, value)),
{
    let after = rs.snooped(tag, value);
    assert forall|kind: RsType, i: int| 0 <= i < rs.pool(kind).len() implies {
        &&& after.pool(kind)[i] == snooped_slot(rs.pool(kind)[i], tag, value)
        &&& after.pool(kind).len() == rs.pool(kind).len()
    } by {
        match kind {
            RsType::Load => {},
            RsType::Store => {},
            RsType::Add => {},
            RsType::Mul => {},
        }
    }
    assert forall|kind: RsType, i: int| 0 <= i < rs.pool(kind).len() implies {
        &&& slot_wf(kind, #[trigger] after.pool(kind)[i])
        &&& live(after, after.pool(kind)[i].qj)
        &&& live(after, after.pool(kind)[i].qk)
    } by {
        lemma_slot_wf(rs, kind, i);
        let slot = rs.pool(kind)[i];
        lemma_snooped_slot(kind, slot, tag, value);
        assert(live(rs, slot.qj) && live(rs, slot.qk)) by {
            match kind {
                RsType::Load => {
                    assert(pool_wf(rs, RsType::Load));
                },
                RsType::Store => {
                    assert(pool_wf(rs, RsType::Store));
                },
                RsType::Add => {
                    assert(pool_wf(rs, RsType::Add));
                },
                RsType::Mul => {
                    assert(pool_wf(rs, RsType::Mul));
                },
            }
        }
        let q = after.pool(kind)[i];
        if let Some((k, j)) = q.qj {
            assert(after.pool(k)[j as int] == snooped_slot(rs.pool(k)[j as int], tag, value));
        }
        if let Some((k, j)) = q.qk {
            assert(after.pool(k)[j as int] == snooped_slot(rs.pool(k)[j as int], tag, value));
        }
    }
    assert(pool_wf(after, RsType::Load));
    assert(pool_wf(after, RsType::Store));
    assert(pool_wf(after, RsType::Add));
    assert(pool_wf(after, RsType::Mul));
}

/// Issuing an instruction keeps pools and registers in order, whether it
/// succeeds or not.
pub proof fn lemma_issue_coherent(rs: RsView, regs: Seq<Reg>, instr: Instrution)
    requires
        coherent(rs, regs),
    ensures
        rs.issued(regs, instr) matches Ok(after) ==> coherent(
            after,
            regs_issued(rs, regs, instr),
        ),
        rs.issued(regs, instr) is Err ==> regs_issued(rs, regs, instr) == regs,
{
    let kind = unit_of(instr.opcode());
    if let Ok(after) = rs.issued(regs, instr) {
        let i = first_free(rs.pool(kind))->Some_0;
        assert(is_first_free(rs.pool(kind), i));
        let slot = issued_slot(instr, regs);
        let regs_after = regs_issued(rs, regs, instr);
        assert(registers_valid(instr));
        assert(slot_wf(kind, slot));
        assert(live(rs, slot.qj)) by {
            if let Some(r) = sources(instr).0 {
                assert(live(rs, regs[r as int].state));
            }
        }
        assert(live(rs, slot.qk)) by {
            if let Some(r) = sources(instr).1 {
                assert(live(rs, regs[r as int].state));
            }
        }
        assert forall|state: RegState| live(rs, state) implies live(after, state) by {
            if let Some((k, j)) = state {
                match k {
                    RsType::Load => {},
                    RsType::Store => {},
                    RsType::Add => {},
                    RsType::Mul => {},
                }
            }
        }
        assert forall|k: RsType, j: int| 0 <= j < after.pool(k).len() implies {
            &&& slot_wf(k, #[trigger] after.pool(k)[j])
            &&& live(after, after.pool(k)[j].qj)
            &&& live(after, after.pool(k)[j].qk)
        } by {
            match k {
                RsType::Load => {
                    assert(pool_wf(rs, RsType::Load));
                },
                RsType::Store => {
                    assert(pool_wf(rs, RsType::Store));
                },
                RsType::Add => {
                    assert(pool_wf(rs, RsType::Add));
                },
                RsType::Mul => {
                    assert(pool_wf(rs, RsType::Mul));
                },
            }
            if k == kind && j == i {
                assert(after.pool(k)[j] == slot);
            } else {
                assert(after.pool(k)[j] == rs.pool(k)[j]);
            }
        }
        assert(pool_wf(after, RsType::Load));
        assert(pool_wf(after, RsType::Store));
        assert(pool_wf(after, RsType::Add));
        assert(pool_wf(after, RsType::Mul));
        assert forall|r: int| 0 <= r < 32 implies live(after, (#[trigger] regs_after[r]).state) by {
            assert(live(rs, regs[r].state));
            if destination(instr) == Some(r as i8) {
                assert(after.pool(kind)[i].busy);
            }
        }
    }
}

/// An attempt of the sequencer to issue keeps pools and registers in
/// order.
pub proof fn lemma_run_coherent(pc: PcView, rs: RsView, regs: Seq<Reg>)
    requires
        coherent(rs, regs),
    ensures
        coherent(pc.rs_ran(rs, regs), pc.regs_ran(rs, regs)),
{
    if let Some(instr) = pc.next() {
        lemma_issue_coherent(rs, regs, instr);
    }
}

} // verus!
