//! The scheduler as a whole: registers, reservation stations and sequencer,
//! reset together and stepped in cycles.

use self::pc::{decode_program, decode_text, DecodeError, Instrution, Pc, PcView};
use self::reg::{default_regs, Reg, RegGroup};
use self::rs::{empty_pools, regs_updated, Rs, RsView};
use self::wf::{coherent, lemma_reset_coherent, lemma_run_coherent, lemma_update_coherent};
use vstd::prelude::*;

pub mod laws;
pub mod pc;
pub mod reg;
pub mod rs;
pub mod text;
pub mod wf;

verus! {

/// The machine: the register status table, the reservation stations and
/// the sequencer.
#[derive(Debug, PartialEq, Eq)]
pub struct Tomasulo {
    pub regs: RegGroup,
    pub rs: Rs,
    pub pc: Pc,
}

/// The state of the machine.
pub struct Machine {
    pub regs: Seq<Reg>,
    pub rs: RsView,
    pub pc: PcView,
}

impl View for Tomasulo {
    type V = Machine;

    open spec fn view(&self) -> Machine {
        Machine { regs: self.regs@, rs: self.rs@, pc: self.pc@ }
    }
}

impl Machine {
    /// The machine at the start of a run of `program`: register `i` holds
    /// `i` and waits for nothing, every slot is empty, and the first
    /// instruction is next.
    pub open spec fn start(program: Seq<Instrution>) -> Machine {
        Machine {
            regs: default_regs(),
            rs: empty_pools(),
            pc: PcView { index: 0, instrutions: program },
        }
    }

    /// Whether the machine is in order: its pools and registers are, and
    /// the sequencer points into its program or just behind it.
    pub open spec fn wf(self) -> bool {
        coherent(self.rs, self.regs) && self.pc.index <= self.pc.instrutions.len()
    }

    /// The machine after the pools have run for one cycle.
    pub open spec fn updated(self) -> Machine {
        Machine { regs: regs_updated(self.rs, self.regs), rs: self.rs.updated(), pc: self.pc }
    }

    /// The machine after the sequencer has tried to issue.
    pub open spec fn ran(self) -> Machine {
        Machine {
            regs: self.pc.regs_ran(self.rs, self.regs),
            rs: self.pc.rs_ran(self.rs, self.regs),
            pc: self.pc.ran(self.rs, self.regs),
        }
    }

    /// The machine one cycle later: first the pools run, so that what
    /// finishes in this cycle is seen by what is issued in it; then the
    /// sequencer tries to issue.
    pub open spec fn stepped(self) -> Machine {
        self.updated().ran()
    }

    /// The machine `n` cycles later.
    pub open spec fn stepped_by(self, n: nat) -> Machine
        decreases n,
    {
        if n == 0 {
            self
        } else {
            self.stepped_by((n - 1) as nat).stepped()
        }
    }
}

/// Every cycle keeps the machine in order.
pub proof fn lemma_step_wf(m: Machine)
    requires
        m.wf(),
    ensures
        m.stepped().wf(),
{
    lemma_update_coherent(m.rs, m.regs);
    lemma_run_coherent(m.pc, m.rs.updated(), regs_updated(m.rs, m.regs));
}

/// The machine is in order after any number of cycles of a run.
pub proof fn lemma_run_wf(program: Seq<Instrution>, n: nat)
    ensures
        Machine::start(program).stepped_by(n).wf(),
    decreases n,
{
    if n == 0 {
        lemma_reset_coherent();
    } else {
        lemma_run_wf(program, (n - 1) as nat);
        lemma_step_wf(Machine::start(program).stepped_by((n - 1) as nat));
    }
}

impl Default for Tomasulo {
    fn default() -> (r: Self)
        ensures
            r@ == Machine::start(Seq::empty()),
            r@.wf(),
    {
        proof {
            lemma_reset_coherent();
        }
        Tomasulo { regs: RegGroup::default(), rs: Rs::default(), pc: Pc::default() }
    }
}

impl Tomasulo {
    /// Resets the machine and loads the program that `instr` denotes, one
    /// instruction per line. Where the text is no program, the machine is
    /// left reset, with an empty program.
    pub fn init_instruction(&mut self, instr: &str) -> (r: Result<(), DecodeError>)
        ensures
            match decode_text(instr@) {
                Ok(program) => r is Ok && final(self)@ == Machine::start(program),
                Err(e) => r == Err::<(), DecodeError>(e) && final(self)@ == Machine::start(
                    Seq::empty(),
                ),
            },
            final(self)@.wf(),
    {
        proof {
            lemma_reset_coherent();
        }
        self.rs.reset();
        self.regs.reset();
        match decode_program(instr) {
            Ok(program) => {
                self.pc.reset_with_instrutions(program);
                Ok(())
            },
            Err(e) => {
                self.pc.reset_with_instrutions(Vec::new());
                Err(e)
            },
        }
    }

    /// Runs the machine for one cycle.
    pub fn step(&mut self)
        ensures
            final(self)@ == old(self)@.stepped(),
            old(self)@.wf() ==> final(self)@.wf(),
    {
        self.rs.update(&mut self.regs);
        let _ = self.pc.run(&mut self.rs, &mut self.regs);
    }

    /// Runs the machine for `i` cycles; for none where `i` is not
    /// positive.
    pub fn run_to(&mut self, i: i32)
        ensures
            final(self)@ == old(self)@.stepped_by(
                if i > 0 {
                    i as nat
                } else {
                    0
                },
            ),
            old(self)@.wf() ==> final(self)@.wf(),
    {
        let mut done: i32 = 0;
        while done < i
            invariant
                0 <= done,
                i > 0 ==> done <= i,
                i <= 0 ==> done == 0,
                self@ == old(self)@.stepped_by(done as nat),
                old(self)@.wf() ==> self@.wf(),
            decreases i - done,
        {
            self.step();
            done = done + 1;
        }
    }
}

} // verus!
