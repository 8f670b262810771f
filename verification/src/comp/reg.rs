//! The register status table: for each architectural register its value,
//! or the producer whose result it waits for.

use super::rs::RsType;
use vstd::prelude::*;

verus! {

/// Identifies the slot that will produce a value: the unit kind and the
/// index of the slot in that unit's pool.
pub type Tag = (RsType, u8);

/// What a register or an operand is waiting for, if anything.
pub type RegState = Option<Tag>;

/// Decides whether two states name the same producer, or are both empty.
pub fn same_state(a: RegState, b: RegState) -> (r: bool)
    ensures
        r == (a == b),
{
    match (a, b) {
        (None, None) => true,
        (Some(x), Some(y)) => x.0 == y.0 && x.1 == y.1,
        _ => false,
    }
}

/// One architectural register. While `state` names a producer, `value` is
/// out of date: issue takes the producer's tag in its place.
#[derive(Clone, Copy, Debug, PartialEq, Eq)]
pub struct Reg {
    pub state: RegState,
    pub value: i32,
}

/// The register status table: the 32 architectural registers.
#[derive(Debug, PartialEq, Eq)]
pub struct RegGroup {
    pub regs: [Reg; 32],
}

/// The registers after a reset: register `i` holds `i` and waits for
/// nothing.
pub open spec fn default_regs() -> Seq<Reg> {
    Seq::new(32, |i: int| Reg { state: None, value: i as i32 })
}

/// A register after the producer `tag` has published `value`: if it waited
/// for that producer it holds the value and waits no longer; otherwise it is
/// as before.
pub open spec fn resolve_reg(reg: Reg, tag: Tag, value: i32) -> Reg {
    if reg.state == Some(tag) {
        Reg { state: None, value }
    } else {
        reg
    }
}

/// Every register after the producer `tag` has published `value`.
pub open spec fn resolve_regs(regs: Seq<Reg>, tag: Tag, value: i32) -> Seq<Reg> {
    Seq::new(regs.len(), |i: int| resolve_reg(regs[i], tag, value))
}

impl View for RegGroup {
    type V = Seq<Reg>;

    open spec fn view(&self) -> Seq<Reg> {
        self.regs@
    }
}

impl Default for Reg {
    fn default() -> (r: Self)
        ensures
            r == (Reg { state: None, value: 0 }),
    {
        Reg { state: None, value: 0 }
    }
}

impl Default for RegGroup {
    fn default() -> (r: Self)
        ensures
            r@ == default_regs(),
    {
        let mut regs = [Reg::default(); 32];
        let mut i: usize = 0;
        while i < 32
            invariant
                0 <= i <= 32,
                forall|j: int| 0 <= j < i ==> regs@[j] == (Reg { state: None, value: j as i32 }),
            decreases 32 - i,
        {
            regs[i] = Reg { state: None, value: i as i32 };
            i += 1;
        }
        Self { regs }
    }
}

impl RegGroup {
    /// Puts every register back to its state after a reset.
    pub fn reset(&mut self)
        ensures
            final(self)@ == default_regs(),
    {
        *self = Self::default();
    }

    /// The register with the given number, which must be below 32.
    pub fn get_reg(&self, index: u8) -> (r: &Reg)
        requires
            index < 32,
        ensures
            *r == self@[index as int],
    {
        &self.regs[index as usize]
    }

    /// Makes the register with the given number, which must be below 32,
    /// wait for `state`, in place of whatever it waited for. Its value stays.
    pub fn set_state(&mut self, index: u8, state: RegState)
        requires
            index < 32,
        ensures
            final(self)@ == old(self)@.update(
                index as int,
                (Reg { state, value: old(self)@[index as int].value }),
            ),
    {
        let mut reg = self.regs[index as usize];
        reg.state = state;
        self.regs[index as usize] = reg;
    }

    /// Gives `value` to every register that waits for the producer `tag`, and
    /// ends its wait. The other registers stay as they are.
    pub fn refresh_reg_state(&mut self, tag: Tag, value: i32)
        ensures
            final(self)@ == resolve_regs(old(self)@, tag, value),
    {
        let mut i: usize = 0;
        while i < 32
            invariant
                0 <= i <= 32,
                forall|j: int| 0 <= j < i ==> self@[j] == resolve_reg(old(self)@[j], tag, value),
                forall|j: int| i <= j < 32 ==> self@[j] == old(self)@[j],
            decreases 32 - i,
        {
            assert(self@[i as int] == old(self)@[i as int]);
            if same_state(self.regs[i].state, Some(tag)) {
                self.regs[i] = Reg { state: None, value };
            }
            i += 1;
        }
    }
}

} // verus!
