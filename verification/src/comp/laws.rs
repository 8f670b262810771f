//! Laws of the scheduler, stated over the states before and after a cycle
//! or an issue.

use super::pc::Instrution;
use super::reg::Reg;
use super::rs::{
    candidate, destination, empty_slot, first_free, first_ready, is_first_free, is_first_ready,
    issued_slot, lemma_first_ready, operand_value, outcome, published, ready, registers_valid,
    regs_issued, regs_updated, sources, unit_of, IssueError, RsType, RsView, Slot, LOAD_VALUE,
};
use super::wf::{
    coherent, lemma_executed, lemma_pools_update, lemma_slot_wf, lemma_updated, pools_wf,
    updated_slot,
};
use super::Machine;
use vstd::prelude::*;

verus! {

/// Whether the slot `i` of the pool `kind`, one of the three that produce
/// values, is busy before the cycle and free after it.
pub open spec fn leaves(rs: RsView, kind: RsType, i: int) -> bool {
    &&& kind != RsType::Store
    &&& 0 <= i < rs.pool(kind).len()
    &&& rs.pool(kind)[i].busy
    &&& !rs.updated().pool(kind)[i].busy
}

/// Whether the slot `i` of the pool `kind` asks for the bus in this cycle.
pub open spec fn asks(rs: RsView, kind: RsType, i: int) -> bool {
    candidate(rs.pool(kind), kind) == Some(i)
}

/// Whether the slot `i` of the pool `kind` is the only busy slot of its
/// pool.
pub open spec fn alone(rs: RsView, kind: RsType, i: int) -> bool {
    forall|j: int| 0 <= j < rs.pool(kind).len() && j != i ==> !(#[trigger] rs.pool(kind)[j]).busy
}

/// One bus: in a cycle, a slot of the add, multiply and load pools leaves
/// only by having the bus, so at most one of them leaves.
pub proof fn lemma_one_leaves(rs: RsView)
    requires
        rs.sized(),
    ensures
        forall|kind: RsType, i: int| #[trigger]
            leaves(rs, kind, i) ==> rs.bus() is Some && rs.bus()->Some_0.0 == (kind, i as u8),
        forall|k1: RsType, i1: int, k2: RsType, i2: int|
            #![trigger leaves(rs, k1, i1), leaves(rs, k2, i2)]
            leaves(rs, k1, i1) && leaves(rs, k2, i2) ==> k1 == k2 && i1 == i2,
{
    lemma_updated(rs);
    assert forall|kind: RsType, i: int| #[trigger] leaves(rs, kind, i) implies rs.bus() is Some
        && rs.bus()->Some_0.0 == (kind, i as u8) by {
        assert(rs.updated().pool(kind)[i] == updated_slot(rs, kind, i));
        lemma_executed(rs.pool(kind), kind);
    }
}

/// Neither an operand of a slot nor a register is known and waited for at
/// once, in any state that is in order; and issue reads from a register
/// either its value or the producer that it waits for, never both.
pub proof fn lemma_tag_value_exclusive(rs: RsView, regs: Seq<Reg>)
    requires
        coherent(rs, regs),
    ensures
        forall|kind: RsType, i: int|
            0 <= i < rs.pool(kind).len() ==> {
                &&& !((#[trigger] rs.pool(kind)[i]).vj is Some && rs.pool(kind)[i].qj is Some)
                &&& !(rs.pool(kind)[i].vk is Some && rs.pool(kind)[i].qk is Some)
            },
        forall|r: int|
            0 <= r < 32 ==> (operand_value(#[trigger] regs[r]) is Some) != (regs[r].state is Some),
{
    assert forall|kind: RsType, i: int| 0 <= i < rs.pool(kind).len() implies {
        &&& !((#[trigger] rs.pool(kind)[i]).vj is Some && rs.pool(kind)[i].qj is Some)
        &&& !(rs.pool(kind)[i].vk is Some && rs.pool(kind)[i].qk is Some)
    } by {
        lemma_slot_wf(rs, kind, i);
    }
}

/// Priority: of the slots that ask for the bus in a cycle, the add pool's
/// has it; the multiply pool's where the add pool asks for nothing; the load
/// pool's where neither of them does. Where no slot asks, the bus is idle.
pub proof fn lemma_priority(rs: RsView)
    requires
        rs.sized(),
    ensures
        forall|i: int| #[trigger]
            asks(rs, RsType::Add, i) ==> rs.bus() == Some(
                ((RsType::Add, i as u8), published(rs.add[i])),
            ),
        forall|i: int| #[trigger]
            asks(rs, RsType::Mul, i) && candidate(rs.add, RsType::Add) is None ==> rs.bus()
                == Some(((RsType::Mul, i as u8), published(rs.mul[i]))),
        forall|i: int| #[trigger]
            asks(rs, RsType::Load, i) && candidate(rs.add, RsType::Add) is None && candidate(
                rs.mul,
                RsType::Mul,
            ) is None ==> rs.bus() == Some(((RsType::Load, i as u8), published(rs.load[i]))),
        candidate(rs.add, RsType::Add) is None && candidate(rs.mul, RsType::Mul) is None
            && candidate(rs.load, RsType::Load) is None ==> rs.bus() is None,
{
}

/// A slot that asks for the bus and does not get it keeps its place: after
/// the cycle it is busy with the same operation, has no time left, knows its
/// operands, and holds as its result the value that it asked to publish. So
/// it asks again, with that value, in the next cycle in which its unit
/// chooses it.
pub proof fn lemma_loser_waits(rs: RsView, kind: RsType, i: int)
    requires
        pools_wf(rs),
        asks(rs, kind, i),
        rs.bus() is Some,
        rs.bus()->Some_0.0 != (kind, i as u8),
    ensures
        rs.updated().pool(kind)[i] == (Slot {
            result: Some(published(rs.pool(kind)[i])),
            ..rs.pool(kind)[i]
        }),
        ready(kind, rs.updated().pool(kind)[i]),
        rs.updated().pool(kind)[i].time == 0,
        published(rs.updated().pool(kind)[i]) == published(rs.pool(kind)[i]),
        published(rs.pool(kind)[i]) == outcome(rs.pool(kind)[i]),
{
    lemma_updated(rs);
    lemma_executed(rs.pool(kind), kind);
    lemma_slot_wf(rs, kind, i);
    assert(rs.updated().pool(kind)[i] == updated_slot(rs, kind, i));
}

/// The slot that has the bus leaves with the value that its operation
/// computes from its operands.
pub proof fn lemma_winner_leaves(rs: RsView)
    requires
        pools_wf(rs),
        rs.bus() is Some,
    ensures
        ({
            let (tag, value) = rs.bus()->Some_0;
            &&& asks(rs, tag.0, tag.1 as int)
            &&& leaves(rs, tag.0, tag.1 as int)
            &&& rs.updated().pool(tag.0)[tag.1 as int] == empty_slot()
            &&& value == outcome(rs.pool(tag.0)[tag.1 as int])
        }),
{
    lemma_updated(rs);
    let (tag, value) = rs.bus()->Some_0;
    lemma_executed(rs.pool(tag.0), tag.0);
    lemma_slot_wf(rs, tag.0, tag.1 as int);
    assert(rs.updated().pool(tag.0)[tag.1 as int] == updated_slot(rs, tag.0, tag.1 as int));
}

/// Priority over three cycles: where a slot of the add pool, one of the
/// multiply pool and one of the load pool ask for the bus in the same cycle,
/// the add pool's has it in that cycle, the multiply pool's in the next and
/// the load pool's in the third, each with the value of its own operation.
///
/// This holds as long as the two that wait are not overtaken: in the second
/// cycle the add pool asks for nothing and the multiply unit still works on
/// its slot; in the third neither the add pool nor the multiply pool asks
/// and the load unit still works on its slot.
pub proof fn lemma_priority_sequence(rs: RsView, a: int, m: int, l: int)
    requires
        pools_wf(rs),
        asks(rs, RsType::Add, a),
        asks(rs, RsType::Mul, m),
        asks(rs, RsType::Load, l),
        candidate(rs.updated().add, RsType::Add) is None,
        first_ready(rs.updated().mul, RsType::Mul) == Some(m),
        candidate(rs.updated().updated().add, RsType::Add) is None,
        candidate(rs.updated().updated().mul, RsType::Mul) is None,
        first_ready(rs.updated().updated().load, RsType::Load) == Some(l),
    ensures
        rs.bus() == Some(((RsType::Add, a as u8), outcome(rs.add[a]))),
        rs.updated().bus() == Some(((RsType::Mul, m as u8), outcome(rs.mul[m]))),
        rs.updated().updated().bus() == Some(((RsType::Load, l as u8), outcome(rs.load[l]))),
{
    let s0 = rs;
    lemma_executed(s0.add, RsType::Add);
    lemma_executed(s0.mul, RsType::Mul);
    lemma_executed(s0.load, RsType::Load);
    lemma_priority(s0);
    lemma_winner_leaves(s0);
    lemma_loser_waits(s0, RsType::Mul, m);
    lemma_loser_waits(s0, RsType::Load, l);
    lemma_pools_update(s0);
    let s1 = s0.updated();
    assert(asks(s1, RsType::Mul, m));
    lemma_priority(s1);
    lemma_executed(s1.load, RsType::Load);
    lemma_updated(s1);
    assert(s1.updated().pool(RsType::Load)[l] == updated_slot(s1, RsType::Load, l));
    lemma_pools_update(s1);
    let s2 = s1.updated();
    lemma_executed(s2.load, RsType::Load);
    assert(asks(s2, RsType::Load, l));
    lemma_priority(s2);
}

/// Three slots by themselves: where a slot of the add pool, one of the
/// multiply pool and one of the load pool ask for the bus in the same cycle,
/// and no other slot of these pools is busy, the add pool's has the bus in
/// that cycle, the multiply pool's in the next, the load pool's in the third,
/// each with the value of its own operation, and then the three pools are
/// empty.
pub proof fn lemma_priority_order(rs: RsView, a: int, m: int, l: int)
    requires
        pools_wf(rs),
        asks(rs, RsType::Add, a),
        asks(rs, RsType::Mul, m),
        asks(rs, RsType::Load, l),
        alone(rs, RsType::Add, a),
        alone(rs, RsType::Mul, m),
        alone(rs, RsType::Load, l),
    ensures
        rs.bus() == Some(((RsType::Add, a as u8), outcome(rs.add[a]))),
        rs.updated().bus() == Some(((RsType::Mul, m as u8), outcome(rs.mul[m]))),
        rs.updated().updated().bus() == Some(((RsType::Load, l as u8), LOAD_VALUE)),
        rs.updated().updated().updated().bus() is None,
        forall|i: int| 0 <= i < 3 ==> !(#[trigger] rs.updated().updated().updated().add[i]).busy,
        forall|i: int| 0 <= i < 2 ==> !(#[trigger] rs.updated().updated().updated().mul[i]).busy,
        forall|i: int| 0 <= i < 3 ==> !(#[trigger] rs.updated().updated().updated().load[i]).busy,
{
    let s0 = rs;
    lemma_executed(s0.add, RsType::Add);
    lemma_executed(s0.mul, RsType::Mul);
    lemma_executed(s0.load, RsType::Load);
    lemma_slot_wf(s0, RsType::Add, a);
    lemma_slot_wf(s0, RsType::Mul, m);
    lemma_slot_wf(s0, RsType::Load, l);
    lemma_priority(s0);
    assert(asks(s0, RsType::Add, a));
    lemma_winner_leaves(s0);
    lemma_loser_waits(s0, RsType::Mul, m);
    lemma_loser_waits(s0, RsType::Load, l);
    lemma_updated(s0);
    lemma_pools_update(s0);

    let s1 = s0.updated();
    assert forall|j: int| 0 <= j < 3 implies !(#[trigger] s1.add[j]).busy by {
        assert(s1.pool(RsType::Add)[j] == updated_slot(s0, RsType::Add, j));
        assert(j != a ==> !s0.add[j].busy);
    }
    assert forall|j: int| 0 <= j < 2 && j != m implies !(#[trigger] s1.mul[j]).busy by {
        assert(s1.pool(RsType::Mul)[j] == updated_slot(s0, RsType::Mul, j));
        assert(!s0.mul[j].busy);
    }
    assert forall|j: int| 0 <= j < 3 && j != l implies !(#[trigger] s1.load[j]).busy by {
        assert(s1.pool(RsType::Load)[j] == updated_slot(s0, RsType::Load, j));
        assert(!s0.load[j].busy);
    }
    lemma_only_ready(s1.add, RsType::Add, None);
    lemma_only_ready(s1.mul, RsType::Mul, Some(m));
    lemma_only_ready(s1.load, RsType::Load, Some(l));
    assert(asks(s1, RsType::Mul, m));
    assert(asks(s1, RsType::Load, l));
    lemma_priority(s1);
    lemma_slot_wf(s1, RsType::Mul, m);
    lemma_slot_wf(s1, RsType::Load, l);
    lemma_winner_leaves(s1);
    lemma_loser_waits(s1, RsType::Load, l);
    lemma_updated(s1);
    lemma_pools_update(s1);

    let s2 = s1.updated();
    assert forall|j: int| 0 <= j < 3 implies !(#[trigger] s2.add[j]).busy by {
        assert(s2.pool(RsType::Add)[j] == updated_slot(s1, RsType::Add, j));
    }
    assert forall|j: int| 0 <= j < 2 implies !(#[trigger] s2.mul[j]).busy by {
        assert(s2.pool(RsType::Mul)[j] == updated_slot(s1, RsType::Mul, j));
    }
    assert forall|j: int| 0 <= j < 3 && j != l implies !(#[trigger] s2.load[j]).busy by {
        assert(s2.pool(RsType::Load)[j] == updated_slot(s1, RsType::Load, j));
    }
    lemma_only_ready(s2.add, RsType::Add, None);
    lemma_only_ready(s2.mul, RsType::Mul, None);
    lemma_only_ready(s2.load, RsType::Load, Some(l));
    assert(asks(s2, RsType::Load, l));
    lemma_priority(s2);
    lemma_slot_wf(s2, RsType::Load, l);
    lemma_winner_leaves(s2);
    lemma_updated(s2);
    lemma_pools_update(s2);

    let s3 = s2.updated();
    assert forall|j: int| 0 <= j < 3 implies !(#[trigger] s3.add[j]).busy by {
        assert(s3.pool(RsType::Add)[j] == updated_slot(s2, RsType::Add, j));
    }
    assert forall|j: int| 0 <= j < 2 implies !(#[trigger] s3.mul[j]).busy by {
        assert(s3.pool(RsType::Mul)[j] == updated_slot(s2, RsType::Mul, j));
    }
    assert forall|j: int| 0 <= j < 3 implies !(#[trigger] s3.load[j]).busy by {
        assert(s3.pool(RsType::Load)[j] == updated_slot(s2, RsType::Load, j));
    }
    lemma_only_ready(s3.add, RsType::Add, None);
    lemma_only_ready(s3.mul, RsType::Mul, None);
    lemma_only_ready(s3.load, RsType::Load, None);
    lemma_priority(s3);
}

/// In a pool whose only busy slot, if any, is `only`, the unit works on
/// that slot if it can execute, and on none otherwise.
proof fn lemma_only_ready(pool: Seq<Slot>, kind: RsType, only: Option<int>)
    requires
        forall|j: int| 0 <= j < pool.len() && Some(j) != only ==> !(#[trigger] pool[j]).busy,
        only matches Some(i) ==> 0 <= i < pool.len(),
    ensures
        first_ready(pool, kind) == match only {
            Some(i) => if ready(kind, pool[i]) {
                Some(i)
            } else {
                None
            },
            None => None,
        },
{
    match only {
        Some(i) => {
            if ready(kind, pool[i]) {
                assert(is_first_ready(pool, kind, i));
                lemma_first_ready(pool, kind, i);
            } else {
                assert forall|k: int| !is_first_ready(pool, kind, k) by {
                    if 0 <= k < pool.len() && k != i {
                        assert(!pool[k].busy);
                    }
                }
            }
        },
        None => {
            assert forall|k: int| !is_first_ready(pool, kind, k) by {
                if 0 <= k < pool.len() {
                    assert(!pool[k].busy);
                }
            }
        },
    }
}

/// Structural hazard: an instruction whose registers exist is refused for
/// want of a slot exactly when every slot of its pool is busy. A refused
/// instruction, whatever the reason, changes no slot and no register.
pub proof fn lemma_structural_hazard(rs: RsView, regs: Seq<Reg>, instr: Instrution)
    requires
        registers_valid(instr),
    ensures
        rs.issued(regs, instr) == Err::<RsView, IssueError>(IssueError::NoFreeSlot) <==> (forall|
            i: int,
        |
            0 <= i < rs.pool(unit_of(instr.opcode())).len() ==> (#[trigger] rs.pool(
                unit_of(instr.opcode()),
            )[i]).busy),
        rs.issued(regs, instr) is Err ==> regs_issued(rs, regs, instr) == regs,
{
    let pool = rs.pool(unit_of(instr.opcode()));
    if forall|i: int| 0 <= i < pool.len() ==> (#[trigger] pool[i]).busy {
        assert forall|k: int| !is_first_free(pool, k) by {
            if 0 <= k < pool.len() {
                assert(pool[k].busy);
            }
        }
    } else {
        lemma_has_first_free(pool, pool.len() as int);
    }
}

/// A pool with a free slot among its first `n` has a lowest free slot.
proof fn lemma_has_first_free(pool: Seq<Slot>, n: int)
    requires
        0 <= n <= pool.len(),
        exists|i: int| 0 <= i < n && !(#[trigger] pool[i]).busy,
    ensures
        first_free(pool) is Some,
    decreases n,
{
    let i = choose|i: int| 0 <= i < n && !(#[trigger] pool[i]).busy;
    if exists|j: int| 0 <= j < i && !(#[trigger] pool[j]).busy {
        lemma_has_first_free(pool, i);
    } else {
        assert(is_first_free(pool, i));
    }
}

/// A machine whose next instruction finds every slot of its pool busy is
/// the same machine after the sequencer's attempt: the sequencer stays at
/// that instruction, and no slot and no register changes.
pub proof fn lemma_hazard_stalls(m: Machine)
    requires
        m.pc.next() is Some,
        registers_valid(m.pc.next()->Some_0),
        forall|i: int|
            0 <= i < m.rs.pool(unit_of(m.pc.next()->Some_0.opcode())).len() ==> (#[trigger] m.rs.pool(
                unit_of(m.pc.next()->Some_0.opcode()),
            )[i]).busy,
    ensures
        m.ran() == m,
{
    lemma_structural_hazard(m.rs, m.regs, m.pc.next()->Some_0);
}

/// Renaming at issue: the slot that takes an instruction has, for each
/// register that the instruction reads, the register's value if the register
/// waits for nothing, and otherwise the producer that the register waits
/// for; and the destination register then waits for that slot.
pub proof fn lemma_issue_renames(rs: RsView, regs: Seq<Reg>, instr: Instrution)
    requires
        rs.sized(),
        regs.len() == 32,
        rs.issued(regs, instr) is Ok,
    ensures
        ({
            let kind = unit_of(instr.opcode());
            let i = first_free(rs.pool(kind))->Some_0;
            let slot = rs.issued(regs, instr)->Ok_0.pool(kind)[i];
            let after = regs_issued(rs, regs, instr);
            &&& is_first_free(rs.pool(kind), i)
            &&& slot == issued_slot(instr, regs)
            &&& sources(instr).0 matches Some(r) ==> match regs[r as int].state {
                Some(tag) => slot.qj == Some(tag) && slot.vj is None,
                None => slot.qj is None && slot.vj == Some(regs[r as int].value),
            }
            &&& sources(instr).1 matches Some(r) ==> match regs[r as int].state {
                Some(tag) => slot.qk == Some(tag) && slot.vk is None,
                None => slot.qk is None && slot.vk == Some(regs[r as int].value),
            }
            &&& destination(instr) matches Some(d) ==> after[d as int].state == Some(
                (kind, i as u8),
            ) && after[d as int].value == regs[d as int].value
        }),
{
    let kind = unit_of(instr.opcode());
    match kind {
        RsType::Load => {},
        RsType::Store => {},
        RsType::Add => {},
        RsType::Mul => {},
    }
}

/// Dependency: an instruction that is issued after one whose destination it
/// reads, and before that one has had the bus, waits for the slot of the
/// first.
pub proof fn lemma_dependency_waits(
    rs: RsView,
    regs: Seq<Reg>,
    first: Instrution,
    second: Instrution,
)
    requires
        rs.sized(),
        regs.len() == 32,
        rs.issued(regs, first) is Ok,
        rs.issued(regs, first)->Ok_0.issued(regs_issued(rs, regs, first), second) is Ok,
        destination(first) is Some,
    ensures
        ({
            let producer = (
                unit_of(first.opcode()),
                first_free(rs.pool(unit_of(first.opcode())))->Some_0 as u8,
            );
            let rs1 = rs.issued(regs, first)->Ok_0;
            let regs1 = regs_issued(rs, regs, first);
            let kind = unit_of(second.opcode());
            let slot = rs1.issued(regs1, second)->Ok_0.pool(kind)[first_free(
                rs1.pool(kind),
            )->Some_0];
            &&& sources(second).0 == destination(first) ==> slot.qj == Some(producer) && slot.vj is None
            &&& sources(second).1 == destination(first) ==> slot.qk == Some(producer) && slot.vk is None
        }),
{
    lemma_issue_renames(rs, regs, first);
    let rs1 = rs.issued(regs, first)->Ok_0;
    let regs1 = regs_issued(rs, regs, first);
    assert(rs1.sized()) by {
        match unit_of(first.opcode()) {
            RsType::Load => {},
            RsType::Store => {},
            RsType::Add => {},
            RsType::Mul => {},
        }
    }
    lemma_issue_renames(rs1, regs1, second);
}

/// Resolution: when a slot has the bus, every operand that waited for it
/// is known after the cycle and equals the value on the bus, and every
/// register that waited for it holds that value and waits no longer. An
/// operand or register that waited for another producer still waits for it,
/// and what was known stays as it was.
pub proof fn lemma_broadcast_resolves(rs: RsView, regs: Seq<Reg>)
    requires
        coherent(rs, regs),
        rs.bus() is Some,
    ensures
        ({
            let (tag, value) = rs.bus()->Some_0;
            let after = rs.updated();
            let regs_after = regs_updated(rs, regs);
            &&& forall|kind: RsType, i: int|
                0 <= i < rs.pool(kind).len() && (#[trigger] rs.pool(kind)[i]).qj == Some(tag)
                    ==> after.pool(kind)[i].qj is None && after.pool(kind)[i].vj == Some(value)
            &&& forall|kind: RsType, i: int|
                0 <= i < rs.pool(kind).len() && (#[trigger] rs.pool(kind)[i]).qk == Some(tag)
                    ==> after.pool(kind)[i].qk is None && after.pool(kind)[i].vk == Some(value)
            &&& forall|kind: RsType, i: int|
                0 <= i < rs.pool(kind).len() && (#[trigger] rs.pool(kind)[i]).qj is Some
                    && rs.pool(kind)[i].qj != Some(tag) ==> after.pool(kind)[i].qj == rs.pool(
                    kind,
                )[i].qj && after.pool(kind)[i].vj is None
            &&& forall|kind: RsType, i: int|
                0 <= i < rs.pool(kind).len() && (#[trigger] rs.pool(kind)[i]).qk is Some
                    && rs.pool(kind)[i].qk != Some(tag) ==> after.pool(kind)[i].qk == rs.pool(
                    kind,
                )[i].qk && after.pool(kind)[i].vk is None
            &&& forall|r: int|
                0 <= r < 32 ==> (#[trigger] regs_after[r]) == if regs[r].state == Some(tag) {
                    Reg { state: None, value }
                } else {
                    regs[r]
                }
        }),
{
    lemma_updated(rs);
    lemma_winner_leaves(rs);
    let (tag, value) = rs.bus()->Some_0;
    let after = rs.updated();
    assert forall|kind: RsType, i: int| 0 <= i < rs.pool(kind).len() implies {
        &&& (#[trigger] rs.pool(kind)[i]).qj == Some(tag) ==> after.pool(kind)[i].qj is None
            && after.pool(kind)[i].vj == Some(value)
        &&& rs.pool(kind)[i].qk == Some(tag) ==> after.pool(kind)[i].qk is None && after.pool(
            kind,
        )[i].vk == Some(value)
        &&& rs.pool(kind)[i].qj is Some && rs.pool(kind)[i].qj != Some(tag) ==> after.pool(
            kind,
        )[i].qj == rs.pool(kind)[i].qj && after.pool(kind)[i].vj is None
        &&& rs.pool(kind)[i].qk is Some && rs.pool(kind)[i].qk != Some(tag) ==> after.pool(
            kind,
        )[i].qk == rs.pool(kind)[i].qk && after.pool(kind)[i].vk is None
    } by {
        lemma_slot_wf(rs, kind, i);
        lemma_executed(rs.pool(kind), kind);
        assert(after.pool(kind)[i] == updated_slot(rs, kind, i));
        lemma_slot_wf(rs, tag.0, tag.1 as int);
    }
}

} // verus!
