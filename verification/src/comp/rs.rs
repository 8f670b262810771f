//! The reservation stations: four pools of slots, the issue of an
//! instruction into a slot, and the cycle that executes the slots and lets
//! one finished result onto the common data bus.

use super::pc::{Instrution, Opcode};
use super::reg::{resolve_regs, same_state, Reg, RegGroup, RegState, Tag};
use super::wf::{
    coherent, lemma_issue_coherent, lemma_pools_snooped, lemma_update_coherent, pools_wf,
};
use vstd::prelude::*;

verus! {

/// The functional unit kinds that own reservation stations.
#[derive(Clone, Copy, Debug, PartialEq, Eq, Structural)]
pub enum RsType {
    Load,
    Store,
    Add,
    Mul,
}

/// Why an instruction was not issued.
#[derive(Clone, Copy, Debug, PartialEq, Eq, Structural)]
pub enum IssueError {
    /// Every slot of the pool that the instruction needs is busy.
    NoFreeSlot,
    /// The instruction names a register outside `x0` to `x31`.
    InvalidRegister,
}

/// The name of a unit kind, as it is shown in a tag.
pub open spec fn unit_name(kind: RsType) -> Seq<char> {
    match kind {
        RsType::Load => "load"@,
        RsType::Store => "store"@,
        RsType::Add => "add"@,
        RsType::Mul => "mul"@,
    }
}

/// The words in which an issue error is reported.
pub open spec fn issue_error_text(e: IssueError) -> Seq<char> {
    match e {
        IssueError::NoFreeSlot => "No Slot"@,
        IssueError::InvalidRegister => "No such register"@,
    }
}

impl RsType {
    /// The name of the unit kind.
    pub fn name(&self) -> (r: &'static str)
        ensures
            r@ == unit_name(*self),
    {
        match self {
            RsType::Load => "load",
            RsType::Store => "store",
            RsType::Add => "add",
            RsType::Mul => "mul",
        }
    }
}

impl IssueError {
    /// The error in words.
    pub fn describe(&self) -> (r: &'static str)
        ensures
            r@ == issue_error_text(*self),
    {
        match self {
            IssueError::NoFreeSlot => "No Slot",
            IssueError::InvalidRegister => "No such register",
        }
    }
}

/// The value that every load delivers: no memory stands behind the
/// machine.
pub const LOAD_VALUE: i32 = 1;

/// One reservation station.
///
/// `vj` and `vk` hold the operands that are known, `qj` and `qk` the
/// producers of those that are not. A load has one operand, its base
/// register, in `vj`. A store has the register to store in `vj` and its base
/// register in `vk`. `addr` is the effective address of a load or store,
/// present once the base is known. `result` is present from the cycle in
/// which the operation finished until the slot has had the bus.
#[derive(Clone, Copy, Debug, PartialEq, Eq)]
pub struct Slot {
    pub busy: bool,
    pub time: i8,
    pub addr: Option<i32>,
    pub op: Option<Instrution>,
    pub vj: Option<i32>,
    pub vk: Option<i32>,
    pub qj: RegState,
    pub qk: RegState,
    pub result: Option<i32>,
}

/// The four pools: three slots for loads, three for stores, three shared by
/// additions and subtractions, two shared by multiplications and divisions.
#[derive(Debug, PartialEq, Eq)]
pub struct Rs {
    pub load: [Slot; 3],
    pub store: [Slot; 3],
    pub add: [Slot; 3],
    pub mul: [Slot; 2],
}

/// The pools as sequences of slots.
pub struct RsView {
    pub load: Seq<Slot>,
    pub store: Seq<Slot>,
    pub add: Seq<Slot>,
    pub mul: Seq<Slot>,
}

/// A slot that holds nothing.
pub open spec fn empty_slot() -> Slot {
    Slot {
        busy: false,
        time: 0,
        addr: None,
        op: None,
        vj: None,
        vk: None,
        qj: None,
        qk: None,
        result: None,
    }
}

/// The pool that executes an operation.
pub open spec fn unit_of(op: Opcode) -> RsType {
    match op {
        Opcode::Lw => RsType::Load,
        Opcode::Sw => RsType::Store,
        Opcode::Add | Opcode::Sub => RsType::Add,
        Opcode::Mul | Opcode::Div => RsType::Mul,
    }
}

/// The number of cycles that an operation executes.
pub open spec fn latency_of(op: Opcode) -> i8 {
    match op {
        Opcode::Mul | Opcode::Div => 10,
        _ => 2,
    }
}

/// Whether `r` is the number of a register that exists.
pub open spec fn valid_register(r: i8) -> bool {
    0 <= r < 32
}

/// Whether every register that the instruction names exists. The middle
/// field of a load or store is an offset and names none.
pub open spec fn registers_valid(instr: Instrution) -> bool {
    let (a, b, c) = instr.fields();
    valid_register(a) && valid_register(c) && (unit_of(instr.opcode()) == RsType::Load || unit_of(
        instr.opcode(),
    ) == RsType::Store || valid_register(b))
}

/// The register that the instruction writes, if any: a store writes none.
pub open spec fn destination(instr: Instrution) -> Option<i8> {
    if instr.opcode() == Opcode::Sw {
        None
    } else {
        Some(instr.fields().0)
    }
}

/// The registers that the instruction reads into `vj`/`qj` and into
/// `vk`/`qk`.
pub open spec fn sources(instr: Instrution) -> (Option<i8>, Option<i8>) {
    let (a, b, c) = instr.fields();
    match instr.opcode() {
        Opcode::Lw => (Some(c), None),
        Opcode::Sw => (Some(a), Some(c)),
        _ => (Some(b), Some(c)),
    }
}

/// The value that issue takes from a register: present only while the
/// register waits for no producer.
pub open spec fn operand_value(reg: Reg) -> Option<i32> {
    if reg.state is None {
        Some(reg.value)
    } else {
        None
    }
}

/// The value of an operand read from the register `source`, if the
/// instruction reads one there and the register holds it.
pub open spec fn source_value(regs: Seq<Reg>, source: Option<i8>) -> Option<i32> {
    match source {
        Some(r) => operand_value(regs[r as int]),
        None => None,
    }
}

/// The producer that an operand read from the register `source` waits for.
pub open spec fn source_wait(regs: Seq<Reg>, source: Option<i8>) -> RegState {
    match source {
        Some(r) => regs[r as int].state,
        None => None,
    }
}

/// The effective address of the load or store in a slot: the offset added
/// to the base, once the base is known. No other operation has one.
pub open spec fn address_of(op: Option<Instrution>, vj: Option<i32>, vk: Option<i32>) -> Option<
    i32,
> {
    match op {
        Some(Instrution::Lw(_, offset, _)) => match vj {
            Some(base) => Some(base.wrapping_add(offset as i32)),
            None => None,
        },
        Some(Instrution::Sw(_, offset, _)) => match vk {
            Some(base) => Some(base.wrapping_add(offset as i32)),
            None => None,
        },
        _ => None,
    }
}

/// The slot that issue fills for `instr`, given the registers as they are
/// before the destination is renamed.
pub open spec fn issued_slot(instr: Instrution, regs: Seq<Reg>) -> Slot {
    let vj = source_value(regs, sources(instr).0);
    let vk = source_value(regs, sources(instr).1);
    Slot {
        busy: true,
        time: latency_of(instr.opcode()),
        addr: address_of(Some(instr), vj, vk),
        op: Some(instr),
        vj,
        vk,
        qj: source_wait(regs, sources(instr).0),
        qk: source_wait(regs, sources(instr).1),
        result: None,
    }
}

/// Whether `i` is the lowest index of a free slot in the pool.
pub open spec fn is_first_free(pool: Seq<Slot>, i: int) -> bool {
    &&& 0 <= i < pool.len()
    &&& !pool[i].busy
    &&& forall|j: int| 0 <= j < i ==> (#[trigger] pool[j]).busy
}

/// The lowest index of a free slot in the pool, if there is one.
pub open spec fn first_free(pool: Seq<Slot>) -> Option<int> {
    if exists|i: int| is_first_free(pool, i) {
        Some(choose|i: int| is_first_free(pool, i))
    } else {
        None
    }
}

/// Whether a slot of a pool of the given kind can execute: it is busy and
/// its operands are known. A load needs its base and its address.
pub open spec fn ready(kind: RsType, slot: Slot) -> bool {
    &&& slot.busy
    &&& slot.vj is Some
    &&& if kind == RsType::Load {
        slot.addr is Some
    } else {
        slot.vk is Some
    }
}

/// Whether `i` is the lowest index of a slot that can execute.
pub open spec fn is_first_ready(pool: Seq<Slot>, kind: RsType, i: int) -> bool {
    &&& 0 <= i < pool.len()
    &&& ready(kind, pool[i])
    &&& forall|j: int| 0 <= j < i ==> !ready(kind, #[trigger] pool[j])
}

/// The slot that the unit works on in this cycle: the lowest index of a
/// slot that can execute, if there is one.
pub open spec fn first_ready(pool: Seq<Slot>, kind: RsType) -> Option<int> {
    if exists|i: int| is_first_ready(pool, kind, i) {
        Some(choose|i: int| is_first_ready(pool, kind, i))
    } else {
        None
    }
}

/// The distance of a number from 0.
pub open spec fn magnitude(x: int) -> int {
    if x < 0 {
        -x
    } else {
        x
    }
}

/// The quotient of the machine's division: rounded toward zero; -1 where
/// the divisor is 0; and the dividend itself where the quotient does not
/// fit, which is the least number divided by -1.
pub open spec fn quotient(a: i32, b: i32) -> i32 {
    if b == 0 {
        -1i32
    } else if a == i32::MIN && b == -1 {
        i32::MIN
    } else if (a < 0) == (b < 0) {
        (magnitude(a as int) / magnitude(b as int)) as i32
    } else {
        (-(magnitude(a as int) / magnitude(b as int))) as i32
    }
}

/// A known operand, or 0 where it is not known.
pub open spec fn known(v: Option<i32>) -> i32 {
    match v {
        Some(x) => x,
        None => 0,
    }
}

/// The value that the operation in a slot computes from its operands.
/// Sums, differences and products wrap around at 32 bits. A load delivers
/// `LOAD_VALUE`; a store, or a slot without an operation, 0.
pub open spec fn outcome(slot: Slot) -> i32 {
    let a = known(slot.vj);
    let b = known(slot.vk);
    match slot.op {
        Some(Instrution::Add(_, _, _)) => a.wrapping_add(b),
        Some(Instrution::Sub(_, _, _)) => a.wrapping_sub(b),
        Some(Instrution::Mul(_, _, _)) => a.wrapping_mul(b),
        Some(Instrution::Div(_, _, _)) => quotient(a, b),
        Some(Instrution::Lw(_, _, _)) => LOAD_VALUE,
        _ => 0,
    }
}

/// The value that a finished slot puts on the bus: the result that it
/// kept while it waited for the bus, or else what its operation computes
/// now.
pub open spec fn published(slot: Slot) -> i32 {
    match slot.result {
        Some(r) => r,
        None => outcome(slot),
    }
}

/// One cycle of work on the slot that its unit has chosen. While time
/// remains, one cycle of it passes. After that a store is done and leaves;
/// any other operation has its result and keeps it for the bus.
pub open spec fn executed_slot(kind: RsType, slot: Slot) -> Slot {
    if slot.time > 0 {
        Slot { time: (slot.time - 1) as i8, ..slot }
    } else if kind == RsType::Store {
        empty_slot()
    } else {
        Slot { result: Some(published(slot)), ..slot }
    }
}

/// The pool after its unit has worked for one cycle: on the first slot
/// that can execute, and on no other.
pub open spec fn executed(pool: Seq<Slot>, kind: RsType) -> Seq<Slot> {
    match first_ready(pool, kind) {
        Some(i) => pool.update(i, executed_slot(kind, pool[i])),
        None => pool,
    }
}

/// The slot of the pool that asks for the bus in this cycle: the slot that
/// the unit works on, if no time remains on it. A store never asks.
pub open spec fn candidate(pool: Seq<Slot>, kind: RsType) -> Option<int> {
    match first_ready(pool, kind) {
        Some(i) => if pool[i].time <= 0 && kind != RsType::Store {
            Some(i)
        } else {
            None
        },
        None => None,
    }
}

/// What a slot makes of a value on the bus: each operand that waited for
/// the producer `tag` is now known, and with it the address of a load or
/// store whose base it was.
pub open spec fn snooped_slot(slot: Slot, tag: Tag, value: i32) -> Slot {
    let vj = if slot.qj == Some(tag) {
        Some(value)
    } else {
        slot.vj
    };
    let vk = if slot.qk == Some(tag) {
        Some(value)
    } else {
        slot.vk
    };
    Slot {
        vj,
        vk,
        qj: if slot.qj == Some(tag) {
            None
        } else {
            slot.qj
        },
        qk: if slot.qk == Some(tag) {
            None
        } else {
            slot.qk
        },
        addr: if slot.qj == Some(tag) || slot.qk == Some(tag) {
            address_of(slot.op, vj, vk)
        } else {
            slot.addr
        },
        ..slot
    }
}

/// Every slot of a pool after it has seen the bus.
pub open spec fn snooped(pool: Seq<Slot>, tag: Tag, value: i32) -> Seq<Slot> {
    Seq::new(pool.len(), |i: int| snooped_slot(pool[i], tag, value))
}

impl RsView {
    /// The pool of the given kind.
    pub open spec fn pool(self, kind: RsType) -> Seq<Slot> {
        match kind {
            RsType::Load => self.load,
            RsType::Store => self.store,
            RsType::Add => self.add,
            RsType::Mul => self.mul,
        }
    }

    /// These pools with the pool of the given kind replaced.
    pub open spec fn with_pool(self, kind: RsType, pool: Seq<Slot>) -> RsView {
        match kind {
            RsType::Load => RsView { load: pool, ..self },
            RsType::Store => RsView { store: pool, ..self },
            RsType::Add => RsView { add: pool, ..self },
            RsType::Mul => RsView { mul: pool, ..self },
        }
    }

    /// These pools with one slot replaced.
    pub open spec fn with_slot(self, kind: RsType, i: int, slot: Slot) -> RsView {
        self.with_pool(kind, self.pool(kind).update(i, slot))
    }

    /// Whether the pools have their sizes: three slots for loads, three for
    /// stores, three for sums and differences, two for products and
    /// quotients.
    pub open spec fn sized(self) -> bool {
        &&& self.load.len() == 3
        &&& self.store.len() == 3
        &&& self.add.len() == 3
        &&& self.mul.len() == 2
    }

    /// The request that wins the bus in this cycle, as the producer's tag
    /// and the value: that of the add pool before that of the multiply
    /// pool, and that one before the load pool's.
    pub open spec fn bus(self) -> Option<(Tag, i32)> {
        match candidate(self.add, RsType::Add) {
            Some(i) => Some(((RsType::Add, i as u8), published(self.add[i]))),
            None => match candidate(self.mul, RsType::Mul) {
                Some(i) => Some(((RsType::Mul, i as u8), published(self.mul[i]))),
                None => match candidate(self.load, RsType::Load) {
                    Some(i) => Some(((RsType::Load, i as u8), published(self.load[i]))),
                    None => None,
                },
            },
        }
    }

    /// The pools after every unit has worked for one cycle.
    pub open spec fn executed(self) -> RsView {
        RsView {
            load: executed(self.load, RsType::Load),
            store: executed(self.store, RsType::Store),
            add: executed(self.add, RsType::Add),
            mul: executed(self.mul, RsType::Mul),
        }
    }

    /// The pools after every slot has seen the bus.
    pub open spec fn snooped(self, tag: Tag, value: i32) -> RsView {
        RsView {
            load: snooped(self.load, tag, value),
            store: snooped(self.store, tag, value),
            add: snooped(self.add, tag, value),
            mul: snooped(self.mul, tag, value),
        }
    }

    /// The pools after one cycle: every unit works, and if a slot wins the
    /// bus, it is emptied and every slot sees its tag and value.
    ///
    /// The units choose their slots, and the bus its winner, from the pools
    /// as they are when the cycle begins. The bus comes last: an operand that
    /// arrives in this cycle lets its slot execute from the next cycle on,
    /// and no slot waits any longer for the slot that was emptied.
    pub open spec fn updated(self) -> RsView {
        match self.bus() {
            Some((tag, value)) => self.executed().with_slot(
                tag.0,
                tag.1 as int,
                empty_slot(),
            ).snooped(tag, value),
            None => self.executed(),
        }
    }

    /// The pools after `instr` has been issued, or why it cannot be.
    pub open spec fn issued(self, regs: Seq<Reg>, instr: Instrution) -> Result<RsView, IssueError> {
        let kind = unit_of(instr.opcode());
        if !registers_valid(instr) {
            Err(IssueError::InvalidRegister)
        } else {
            match first_free(self.pool(kind)) {
                Some(i) => Ok(self.with_slot(kind, i, issued_slot(instr, regs))),
                None => Err(IssueError::NoFreeSlot),
            }
        }
    }
}

/// The registers after one cycle of the pools `rs`: if a slot wins the
/// bus, every register that waited for it takes the value.
pub open spec fn regs_updated(rs: RsView, regs: Seq<Reg>) -> Seq<Reg> {
    match rs.bus() {
        Some((tag, value)) => resolve_regs(regs, tag, value),
        None => regs,
    }
}

/// The registers after `instr` has been issued into the pools `rs`: its
/// destination, if it has one, now waits for the slot that took it. Where
/// the instruction cannot be issued the registers stay as they are.
pub open spec fn regs_issued(rs: RsView, regs: Seq<Reg>, instr: Instrution) -> Seq<Reg> {
    let kind = unit_of(instr.opcode());
    match (rs.issued(regs, instr), first_free(rs.pool(kind)), destination(instr)) {
        (Ok(_), Some(i), Some(d)) => regs.update(
            d as int,
            Reg { state: Some((kind, i as u8)), value: regs[d as int].value },
        ),
        _ => regs,
    }
}

impl View for Rs {
    type V = RsView;

    open spec fn view(&self) -> RsView {
        RsView { load: self.load@, store: self.store@, add: self.add@, mul: self.mul@ }
    }
}

/// The lowest free slot is the only one that `is_first_free` accepts.
pub proof fn lemma_first_free(pool: Seq<Slot>, i: int)
    requires
        is_first_free(pool, i),
    ensures
        first_free(pool) == Some(i),
{
    let k = choose|k: int| is_first_free(pool, k);
    if k < i {
        assert(pool[k].busy);
    }
    if i < k {
        assert(pool[i].busy);
    }
}

/// The first slot that can execute is the only one that `is_first_ready`
/// accepts.
pub proof fn lemma_first_ready(pool: Seq<Slot>, kind: RsType, i: int)
    requires
        is_first_ready(pool, kind, i),
    ensures
        first_ready(pool, kind) == Some(i),
{
    let k = choose|k: int| is_first_ready(pool, kind, k);
    if k < i {
        assert(!ready(kind, pool[k]));
    }
    if i < k {
        assert(!ready(kind, pool[i]));
    }
}

impl Default for Slot {
    fn default() -> (r: Self)
        ensures
            r == empty_slot(),
    {
        Slot {
            busy: false,
            time: 0,
            addr: None,
            op: None,
            vj: None,
            vk: None,
            qj: None,
            qk: None,
            result: None,
        }
    }
}

impl Default for Rs {
    fn default() -> (r: Self)
        ensures
            r@ == empty_pools(),
    {
        let r = Rs {
            load: [Slot::default(); 3],
            store: [Slot::default(); 3],
            add: [Slot::default(); 3],
            mul: [Slot::default(); 2],
        };
        assert(r@.load =~= empty_pools().load);
        assert(r@.store =~= empty_pools().store);
        assert(r@.add =~= empty_pools().add);
        assert(r@.mul =~= empty_pools().mul);
        r
    }
}

/// The pools with every slot empty.
pub open spec fn empty_pools() -> RsView {
    RsView {
        load: Seq::new(3, |i: int| empty_slot()),
        store: Seq::new(3, |i: int| empty_slot()),
        add: Seq::new(3, |i: int| empty_slot()),
        mul: Seq::new(2, |i: int| empty_slot()),
    }
}

/// The pool that executes an operation.
pub fn unit(op: Opcode) -> (r: RsType)
    ensures
        r == unit_of(op),
{
    match op {
        Opcode::Lw => RsType::Load,
        Opcode::Sw => RsType::Store,
        Opcode::Add | Opcode::Sub => RsType::Add,
        Opcode::Mul | Opcode::Div => RsType::Mul,
    }
}

/// The number of cycles that an operation executes.
pub fn latency(op: Opcode) -> (r: i8)
    ensures
        r == latency_of(op),
{
    match op {
        Opcode::Mul | Opcode::Div => 10,
        _ => 2,
    }
}

/// Divides as the machine does.
pub fn divide(a: i32, b: i32) -> (r: i32)
    ensures
        r == quotient(a, b),
{
    if b == 0 {
        -1
    } else if a == i32::MIN && b == -1 {
        i32::MIN
    } else {
        let x: i64 = a as i64;
        let d: i64 = b as i64;
        let mx: u64 = if x < 0 {
            (-x) as u64
        } else {
            x as u64
        };
        let md: u64 = if d < 0 {
            (-d) as u64
        } else {
            d as u64
        };
        let q: u64 = mx / md;
        assert(0 <= q <= mx) by (nonlinear_arith)
            requires
                q == mx / md,
                md >= 1,
        ;
        assert(md >= 2 && mx > 0 ==> q < mx) by (nonlinear_arith)
            requires
                q == mx / md,
                md >= 1,
        ;
        assert(md == 1 ==> q == mx) by (nonlinear_arith)
            requires
                q == mx / md,
        ;
        if (x < 0) == (d < 0) {
            q as i32
        } else {
            (-(q as i64)) as i32
        }
    }
}

/// Adds the offset of a load or store to its base, once the base is known.
fn effective_address(op: Option<Instrution>, vj: Option<i32>, vk: Option<i32>) -> (r: Option<i32>)
    ensures
        r == address_of(op, vj, vk),
{
    match op {
        Some(Instrution::Lw(_, offset, _)) => match vj {
            Some(base) => Some(base.wrapping_add(offset as i32)),
            None => None,
        },
        Some(Instrution::Sw(_, offset, _)) => match vk {
            Some(base) => Some(base.wrapping_add(offset as i32)),
            None => None,
        },
        _ => None,
    }
}

/// Reads an operand from a register: its value, or else the producer that
/// the register waits for.
fn read_operand(regs: &RegGroup, source: Option<i8>) -> (r: (Option<i32>, RegState))
    requires
        source matches Some(s) ==> valid_register(s),
    ensures
        r.0 == source_value(regs@, source),
        r.1 == source_wait(regs@, source),
{
    match source {
        Some(s) => {
            let reg = regs.get_reg(s as u8);
            if reg.state.is_none() {
                (Some(reg.value), None)
            } else {
                (None, reg.state)
            }
        },
        None => (None, None),
    }
}

/// Finds the lowest free slot of a pool.
fn find_free<const N: usize>(pool: &[Slot; N]) -> (r: Option<usize>)
    ensures
        match r {
            Some(i) => first_free(pool@) == Some(i as int) && i < N,
            None => first_free(pool@) is None,
        },
{
    let mut i: usize = 0;
    while i < N
        invariant
            0 <= i <= N,
            forall|j: int| 0 <= j < i ==> (#[trigger] pool@[j]).busy,
        decreases N - i,
    {
        if !pool[i].busy {
            proof {
                lemma_first_free(pool@, i as int);
            }
            return Some(i);
        }
        i += 1;
    }
    None
}

/// Finds the slot that the unit of a pool works on.
fn find_ready<const N: usize>(pool: &[Slot; N], kind: RsType) -> (r: Option<usize>)
    ensures
        match r {
            Some(i) => first_ready(pool@, kind) == Some(i as int) && i < N,
            None => first_ready(pool@, kind) is None,
        },
{
    let mut i: usize = 0;
    while i < N
        invariant
            0 <= i <= N,
            forall|j: int| 0 <= j < i ==> !ready(kind, #[trigger] pool@[j]),
        decreases N - i,
    {
        if pool[i].can_execute(kind) {
            proof {
                lemma_first_ready(pool@, kind, i as int);
            }
            return Some(i);
        }
        i += 1;
    }
    None
}

/// Lets the unit of a pool work for one cycle, and reports the slot that
/// asks for the bus, with its value.
fn execute_pool<const N: usize>(pool: &mut [Slot; N], kind: RsType) -> (asked: Option<(u8, i32)>)
    requires
        N <= 255,
    ensures
        final(pool)@ == executed(old(pool)@, kind),
        match candidate(old(pool)@, kind) {
            Some(i) => asked == Some((i as u8, published(old(pool)@[i]))) && 0 <= i < N,
            None => asked is None,
        },
{
    match find_ready(pool, kind) {
        Some(i) => {
            let mut slot = pool[i];
            if slot.time > 0 {
                slot.time = slot.time - 1;
                pool[i] = slot;
                None
            } else if kind == RsType::Store {
                pool[i] = Slot::default();
                None
            } else {
                let value = slot.value();
                slot.result = Some(value);
                pool[i] = slot;
                Some((i as u8, value))
            }
        },
        None => None,
    }
}

/// Shows the bus to every slot of a pool.
fn snoop_pool<const N: usize>(pool: &mut [Slot; N], tag: Tag, value: i32)
    ensures
        final(pool)@ == snooped(old(pool)@, tag, value),
{
    let mut i: usize = 0;
    while i < N
        invariant
            0 <= i <= N,
            forall|j: int| 0 <= j < i ==> pool@[j] == snooped_slot(old(pool)@[j], tag, value),
            forall|j: int| i <= j < N ==> pool@[j] == old(pool)@[j],
        decreases N - i,
    {
        assert(pool@[i as int] == old(pool)@[i as int]);
        let mut slot = pool[i];
        slot.snoop(tag, value);
        pool[i] = slot;
        i += 1;
    }
}

impl Slot {
    /// Empties the slot.
    pub fn reset(&mut self)
        ensures
            *final(self) == empty_slot(),
    {
        self.busy = false;
        self.time = 0;
        self.addr = None;
        self.op = None;
        self.vj = None;
        self.vk = None;
        self.qj = None;
        self.qk = None;
        self.result = None;
    }

    /// Whether the slot, in a pool of the given kind, can execute.
    pub fn can_execute(&self, kind: RsType) -> (r: bool)
        ensures
            r == ready(kind, *self),
    {
        self.busy && self.vj.is_some() && if kind == RsType::Load {
            self.addr.is_some()
        } else {
            self.vk.is_some()
        }
    }

    /// The value that the slot puts on the bus once its operation has
    /// finished.
    pub fn value(&self) -> (r: i32)
        ensures
            r == published(*self),
    {
        match self.result {
            Some(r) => r,
            None => {
                let a = match self.vj {
                    Some(x) => x,
                    None => 0,
                };
                let b = match self.vk {
                    Some(x) => x,
                    None => 0,
                };
                match self.op {
                    Some(Instrution::Add(_, _, _)) => a.wrapping_add(b),
                    Some(Instrution::Sub(_, _, _)) => a.wrapping_sub(b),
                    Some(Instrution::Mul(_, _, _)) => a.wrapping_mul(b),
                    Some(Instrution::Div(_, _, _)) => divide(a, b),
                    Some(Instrution::Lw(_, _, _)) => LOAD_VALUE,
                    _ => 0,
                }
            },
        }
    }

    /// Takes from the bus each operand that waited for the producer `tag`.
    pub fn snoop(&mut self, tag: Tag, value: i32)
        ensures
            *final(self) == snooped_slot(*old(self), tag, value),
    {
        let hit_j = same_state(self.qj, Some(tag));
        let hit_k = same_state(self.qk, Some(tag));
        if hit_j {
            self.qj = None;
            self.vj = Some(value);
        }
        if hit_k {
            self.qk = None;
            self.vk = Some(value);
        }
        if hit_j || hit_k {
            self.addr = effective_address(self.op, self.vj, self.vk);
        }
    }
}

impl Rs {
    /// Empties every slot of every pool.
    pub fn reset(&mut self)
        ensures
            final(self)@ == empty_pools(),
    {
        *self = Self::default();
    }

    /// Issues `instr` into the lowest free slot of its pool. Each source
    /// register gives the slot its value, or else the producer that it waits
    /// for; after that the destination register waits for the slot.
    ///
    /// Nothing changes where the instruction names a register that does
    /// not exist, or where its pool has no free slot.
    pub fn try_issue(&mut self, instr: Instrution, regs: &mut RegGroup) -> (r: Result<
        (),
        IssueError,
    >)
        ensures
            match old(self)@.issued(old(regs)@, instr) {
                Ok(rs) => r is Ok && final(self)@ == rs,
                Err(e) => r == Err::<(), IssueError>(e) && final(self)@ == old(self)@,
            },
            final(regs)@ == regs_issued(old(self)@, old(regs)@, instr),
            coherent(old(self)@, old(regs)@) ==> coherent(final(self)@, final(regs)@),
    {
        proof {
            if coherent(self@, regs@) {
                lemma_issue_coherent(self@, regs@, instr);
            }
        }
        let op = instr.kind();
        let kind = unit(op);
        let (a, b, c) = instr.operands();
        let named = a >= 0 && a < 32 && c >= 0 && c < 32 && (kind == RsType::Load || kind
            == RsType::Store || (b >= 0 && b < 32));
        if !named {
            return Err(IssueError::InvalidRegister);
        }
        let (first, second) = match op {
            Opcode::Lw => (Some(c), None),
            Opcode::Sw => (Some(a), Some(c)),
            _ => (Some(b), Some(c)),
        };
        let (vj, qj) = read_operand(regs, first);
        let (vk, qk) = read_operand(regs, second);
        let slot = Slot {
            busy: true,
            time: latency(op),
            addr: effective_address(Some(instr), vj, vk),
            op: Some(instr),
            vj,
            vk,
            qj,
            qk,
            result: None,
        };
        let found = match kind {
            RsType::Load => find_free(&self.load),
            RsType::Store => find_free(&self.store),
            RsType::Add => find_free(&self.add),
            RsType::Mul => find_free(&self.mul),
        };
        match found {
            Some(i) => {
                match kind {
                    RsType::Load => {
                        self.load[i] = slot;
                    },
                    RsType::Store => {
                        self.store[i] = slot;
                    },
                    RsType::Add => {
                        self.add[i] = slot;
                    },
                    RsType::Mul => {
                        self.mul[i] = slot;
                    },
                }
                if kind != RsType::Store {
                    regs.set_state(a as u8, Some((kind, i as u8)));
                }
                Ok(())
            },
            None => Err(IssueError::NoFreeSlot),
        }
    }

    /// Runs the pools for one cycle. Each unit works on the first of its
    /// slots that can execute. Of the slots that have finished, one wins the
    /// bus: it is emptied, and every register and every slot that waited for
    /// it takes its value. A finished slot that does not win keeps its result
    /// and asks again.
    pub fn update(&mut self, regs: &mut RegGroup)
        ensures
            final(self)@ == old(self)@.updated(),
            final(regs)@ == regs_updated(old(self)@, old(regs)@),
            coherent(old(self)@, old(regs)@) ==> coherent(final(self)@, final(regs)@),
    {
        proof {
            if coherent(self@, regs@) {
                lemma_update_coherent(self@, regs@);
            }
        }
        let from_add = execute_pool(&mut self.add, RsType::Add);
        let from_mul = execute_pool(&mut self.mul, RsType::Mul);
        let from_load = execute_pool(&mut self.load, RsType::Load);
        let _ = execute_pool(&mut self.store, RsType::Store);
        let winner = match from_add {
            Some((i, value)) => Some(((RsType::Add, i), value)),
            None => match from_mul {
                Some((i, value)) => Some(((RsType::Mul, i), value)),
                None => match from_load {
                    Some((i, value)) => Some(((RsType::Load, i), value)),
                    None => None,
                },
            },
        };
        assert(self@ == old(self)@.executed());
        assert(winner == old(self)@.bus());
        match winner {
            Some((tag, value)) => {
                match tag.0 {
                    RsType::Add => {
                        self.add[tag.1 as usize] = Slot::default();
                    },
                    RsType::Mul => {
                        self.mul[tag.1 as usize] = Slot::default();
                    },
                    _ => {
                        self.load[tag.1 as usize] = Slot::default();
                    },
                }
                regs.refresh_reg_state(tag, value);
                self.refresh(tag, value);
            },
            None => {},
        }
    }

    /// Shows the bus to every slot of every pool.
    pub fn refresh(&mut self, tag: Tag, value: i32)
        ensures
            final(self)@ == old(self)@.snooped(tag, value),
            pools_wf(old(self)@) ==> pools_wf(final(self)@),
    {
        proof {
            if pools_wf(self@) {
                lemma_pools_snooped(self@, tag, value);
            }
        }
        snoop_pool(&mut self.add, tag, value);
        snoop_pool(&mut self.mul, tag, value);
        snoop_pool(&mut self.load, tag, value);
        snoop_pool(&mut self.store, tag, value);
    }
}

} // verus!
