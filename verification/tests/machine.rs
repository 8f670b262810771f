use tomasulo::comp::pc::{DecodeError, Instrution, Pc, RunError};
use tomasulo::comp::reg::{Reg, RegGroup};
use tomasulo::comp::rs::{IssueError, Rs, RsType, Slot};
use tomasulo::comp::Tomasulo;

fn machine(program: &str) -> Tomasulo {
    let mut m = Tomasulo::default();
    m.init_instruction(program).unwrap();
    m
}

fn reg(m: &Tomasulo, i: u8) -> Reg {
    *m.regs.get_reg(i)
}

fn assert_cleared(m: &Tomasulo) {
    assert_eq!(m.rs.load, [Slot::default(); 3]);
    assert_eq!(m.rs.store, [Slot::default(); 3]);
    assert_eq!(m.rs.add, [Slot::default(); 3]);
    assert_eq!(m.rs.mul, [Slot::default(); 2]);
    for i in 0..32u8 {
        assert_eq!(reg(m, i), Reg { state: None, value: i as i32 });
    }
}

#[test]
fn a_new_machine_is_cleared_and_has_no_program() {
    let m = Tomasulo::default();
    assert_cleared(&m);
    assert_eq!(m.pc.index, 0);
    assert!(m.pc.instrutions.is_empty());
}

#[test]
fn init_loads_the_program_and_clears_the_machine() {
    let mut m = machine("add x1 x2 x3\nmul x4 x1 x5\n");
    m.run_to(3);
    assert!(m.rs.add[0].busy);
    assert_eq!(m.pc.index, 2);
    assert_eq!(m.init_instruction("lw x1 1 x0\n\nsw x1 2 x3"), Ok(()));
    assert_cleared(&m);
    assert_eq!(m.pc.index, 0);
    assert_eq!(m.pc.instrutions, vec![Instrution::Lw(1, 1, 0), Instrution::Sw(1, 2, 3)]);
}

#[test]
fn init_with_a_bad_line_fails_and_leaves_the_machine_cleared() {
    let mut m = machine("add x1 x2 x3\nmul x4 x1 x5\n");
    m.run_to(2);
    assert_eq!(m.init_instruction("add x1 x2 x3\nbogus"), Err(DecodeError::TokenCount));
    assert_cleared(&m);
    assert_eq!(m.pc.index, 0);
    assert!(m.pc.instrutions.is_empty());
    assert_eq!(m.init_instruction("jmp x1 x2 x3"), Err(DecodeError::UnknownOpcode));
    assert_eq!(m.init_instruction("add x1 x2 3"), Err(DecodeError::BadRegister));
    assert_eq!(m.init_instruction("lw x1 x2 x3"), Err(DecodeError::BadImmediate));
    m.run_to(5);
    assert_cleared(&m);
    assert_eq!(m.pc.index, 0);
}

#[test]
fn a_cycle_runs_the_pools_and_then_issues() {
    let mut m = machine("add x1 x2 x3\nlw x10 0 x0\nsw x11 0 x0\nmul x4 x1 x1");
    m.step();
    assert_eq!(m.pc.index, 1);
    assert_eq!(m.rs.add[0].time, 2);
    assert_eq!(reg(&m, 1).state, Some((RsType::Add, 0)));
    m.step();
    assert_eq!(m.pc.index, 2);
    assert_eq!(m.rs.add[0].time, 1);
    assert_eq!(m.rs.load[0].time, 2);
    m.step();
    assert_eq!(m.pc.index, 3);
    assert_eq!(m.rs.add[0].time, 0);
    assert_eq!(m.rs.load[0].time, 1);
    assert_eq!(m.rs.store[0].time, 2);
    m.step();
    assert_eq!(m.pc.index, 4);
    assert_eq!(m.rs.add[0], Slot::default());
    assert_eq!(reg(&m, 1), Reg { state: None, value: 5 });
    assert_eq!(m.rs.mul[0].vj, Some(5));
    assert_eq!(m.rs.mul[0].vk, Some(5));
    assert_eq!(m.rs.mul[0].qj, None);
    assert_eq!(m.rs.mul[0].qk, None);
    assert_eq!(m.rs.mul[0].time, 10);
}

#[test]
fn load_multiply_add_scenario() {
    let mut m = machine("lw x1 1 x0\nmul x1 x1 x2\nadd x3 x1 x2");
    assert_eq!(reg(&m, 0).value, 0);
    assert_eq!(reg(&m, 1).value, 1);
    assert_eq!(reg(&m, 2).value, 2);

    m.run_to(1);
    assert_eq!(m.pc.index, 1);
    assert!(m.rs.load[0].busy);
    assert_eq!(m.rs.load[0].op, Some(Instrution::Lw(1, 1, 0)));
    assert_eq!(m.rs.load[0].vj, Some(0));
    assert_eq!(m.rs.load[0].addr, Some(1));
    assert_eq!(reg(&m, 1).state, Some((RsType::Load, 0)));

    m.run_to(1);
    assert_eq!(m.pc.index, 2);
    assert_eq!(m.rs.mul[0].op, Some(Instrution::Mul(1, 1, 2)));
    assert_eq!(m.rs.mul[0].qj, Some((RsType::Load, 0)));
    assert_eq!(m.rs.mul[0].vj, None);
    assert_eq!(m.rs.mul[0].vk, Some(2));
    assert_eq!(reg(&m, 1).state, Some((RsType::Mul, 0)));

    m.run_to(1);
    assert_eq!(m.pc.index, 3);
    assert_eq!(m.rs.add[0].op, Some(Instrution::Add(3, 1, 2)));
    assert_eq!(m.rs.add[0].qj, Some((RsType::Mul, 0)));
    assert_eq!(m.rs.add[0].vj, None);
    assert_eq!(m.rs.add[0].vk, Some(2));
    assert_eq!(reg(&m, 3).state, Some((RsType::Add, 0)));
    assert!(m.rs.load[0].busy);

    m.run_to(1);
    assert_eq!(m.rs.load[0], Slot::default());
    assert_eq!(m.rs.mul[0].qj, None);
    assert_eq!(m.rs.mul[0].vj, Some(1));
    assert_eq!(m.rs.mul[0].time, 10);
    assert_eq!(reg(&m, 1), Reg { state: Some((RsType::Mul, 0)), value: 1 });
    assert_eq!(m.pc.index, 3);

    m.run_to(10);
    assert_eq!(m.rs.mul[0].time, 0);
    assert!(m.rs.mul[0].busy);
    assert_eq!(m.rs.add[0].qj, Some((RsType::Mul, 0)));

    m.run_to(1);
    assert_eq!(m.rs.mul[0], Slot::default());
    assert_eq!(reg(&m, 1), Reg { state: None, value: 2 });
    assert_eq!(m.rs.add[0].qj, None);
    assert_eq!(m.rs.add[0].vj, Some(2));
    assert_eq!(m.rs.add[0].time, 2);

    m.run_to(2);
    assert_eq!(m.rs.add[0].time, 0);
    assert_eq!(reg(&m, 3).state, Some((RsType::Add, 0)));

    m.run_to(1);
    assert_eq!(reg(&m, 3), Reg { state: None, value: 4 });
    assert_eq!(reg(&m, 1), Reg { state: None, value: 2 });
    assert_eq!(m.rs.add, [Slot::default(); 3]);
    assert_eq!(m.rs.mul, [Slot::default(); 2]);
    assert_eq!(m.rs.load, [Slot::default(); 3]);
    assert_eq!(m.pc.index, 3);

    m.run_to(5);
    assert_eq!(reg(&m, 3), Reg { state: None, value: 4 });
    for i in (0..32u8).filter(|i| *i != 1 && *i != 3) {
        assert_eq!(reg(&m, i), Reg { state: None, value: i as i32 });
    }
}

#[test]
fn running_in_one_go_equals_running_in_steps() {
    let program = "lw x1 1 x0\nmul x1 x1 x2\nadd x3 x1 x2";
    let mut whole = machine(program);
    whole.run_to(18);
    let mut parts = machine(program);
    for _ in 0..18 {
        parts.step();
    }
    assert_eq!(reg(&whole, 3).value, 4);
    for i in 0..32u8 {
        assert_eq!(reg(&whole, i), reg(&parts, i));
    }
    assert_eq!(whole.rs.add, parts.rs.add);
    assert_eq!(whole.rs.mul, parts.rs.mul);
    assert_eq!(whole.rs.load, parts.rs.load);
    assert_eq!(whole.rs.store, parts.rs.store);
    assert_eq!(whole.pc.index, parts.pc.index);

    let mut early = machine(program);
    early.run_to(17);
    assert_eq!(reg(&early, 3), Reg { state: Some((RsType::Add, 0)), value: 3 });
}

#[test]
fn running_for_no_cycles_changes_nothing() {
    let mut m = machine("add x1 x2 x3");
    m.run_to(0);
    assert_cleared(&m);
    assert_eq!(m.pc.index, 0);
    m.run_to(-3);
    assert_cleared(&m);
    assert_eq!(m.pc.index, 0);
    m.run_to(i32::MIN);
    assert_eq!(m.pc.index, 0);
}

#[test]
fn a_full_pool_holds_the_sequencer_until_a_slot_is_free() {
    let mut m = machine("mul x1 x2 x3\nmul x4 x5 x6\nmul x7 x8 x9\nadd x10 x11 x12");
    m.run_to(2);
    assert_eq!(m.pc.index, 2);
    for _ in 3..=11 {
        let before = (m.rs.mul[1], m.rs.add, m.rs.load, m.rs.store);
        m.step();
        assert_eq!(m.pc.index, 2);
        assert_eq!((m.rs.mul[1], m.rs.add, m.rs.load, m.rs.store), before);
        assert_eq!(reg(&m, 7), Reg { state: None, value: 7 });
        assert_eq!(reg(&m, 10), Reg { state: None, value: 10 });
    }
    assert_eq!(m.rs.mul[0].time, 0);
    m.step();
    assert_eq!(m.pc.index, 3);
    assert_eq!(reg(&m, 1), Reg { state: None, value: 6 });
    assert_eq!(m.rs.mul[0].op, Some(Instrution::Mul(7, 8, 9)));
    assert_eq!(m.rs.mul[0].time, 10);
    assert_eq!(reg(&m, 7).state, Some((RsType::Mul, 0)));
    m.step();
    assert_eq!(m.pc.index, 4);
    m.run_to(10);
    assert_eq!(reg(&m, 7), Reg { state: None, value: 72 });
    assert_eq!(reg(&m, 10), Reg { state: None, value: 23 });
    assert_eq!(reg(&m, 4).state, Some((RsType::Mul, 1)));
    m.run_to(11);
    assert_eq!(reg(&m, 4), Reg { state: None, value: 30 });
    assert_cleared_pools(&m);
}

fn assert_cleared_pools(m: &Tomasulo) {
    assert_eq!(m.rs.load, [Slot::default(); 3]);
    assert_eq!(m.rs.store, [Slot::default(); 3]);
    assert_eq!(m.rs.add, [Slot::default(); 3]);
    assert_eq!(m.rs.mul, [Slot::default(); 2]);
}

#[test]
fn the_sequencer_does_not_pass_a_fourth_load() {
    let mut rs = Rs::default();
    let mut regs = RegGroup::default();
    let mut pc = Pc::default();
    pc.reset_with_instrutions(vec![
        Instrution::Lw(1, 1, 0),
        Instrution::Lw(2, 2, 0),
        Instrution::Lw(3, 3, 0),
        Instrution::Lw(4, 4, 0),
        Instrution::Add(5, 6, 7),
    ]);
    assert_eq!(pc.run(&mut rs, &mut regs), Ok(()));
    assert_eq!(pc.run(&mut rs, &mut regs), Ok(()));
    assert_eq!(pc.run(&mut rs, &mut regs), Ok(()));
    assert_eq!(pc.index, 3);
    let slots = rs.load;
    for _ in 0..3 {
        assert_eq!(pc.run(&mut rs, &mut regs), Err(RunError::Issue(IssueError::NoFreeSlot)));
        assert_eq!(pc.index, 3);
        assert_eq!(rs.load, slots);
        assert_eq!(rs.add, [Slot::default(); 3]);
        assert_eq!(*regs.get_reg(4), Reg { state: None, value: 4 });
        assert_eq!(*regs.get_reg(5), Reg { state: None, value: 5 });
    }
    rs.load[1] = Slot::default();
    assert_eq!(pc.run(&mut rs, &mut regs), Ok(()));
    assert_eq!(pc.index, 4);
    assert_eq!(rs.load[1].op, Some(Instrution::Lw(4, 4, 0)));
    assert_eq!(regs.get_reg(4).state, Some((RsType::Load, 1)));
    assert_eq!(rs.load[0], slots[0]);
    assert_eq!(rs.load[2], slots[2]);
}

#[test]
fn the_sequencer_reports_the_end_of_the_program() {
    let mut rs = Rs::default();
    let mut regs = RegGroup::default();
    let mut pc = Pc::default();
    assert_eq!(pc.run(&mut rs, &mut regs), Err(RunError::ProgramComplete));
    assert_eq!(pc.index, 0);
    pc.reset_with_instrutions(vec![Instrution::Add(1, 2, 3)]);
    assert_eq!(pc.index, 0);
    assert_eq!(pc.run(&mut rs, &mut regs), Ok(()));
    assert_eq!(pc.index, 1);
    let slots = rs.add;
    assert_eq!(pc.run(&mut rs, &mut regs), Err(RunError::ProgramComplete));
    assert_eq!(pc.run(&mut rs, &mut regs), Err(RunError::ProgramComplete));
    assert_eq!(pc.index, 1);
    assert_eq!(rs.add, slots);
    pc.index = 7;
    assert_eq!(pc.run(&mut rs, &mut regs), Err(RunError::ProgramComplete));
    assert_eq!(pc.index, 7);
}

#[test]
fn loading_a_program_starts_at_its_first_instruction() {
    let mut rs = Rs::default();
    let mut regs = RegGroup::default();
    let mut pc = Pc::default();
    pc.reset_with_instrutions(vec![Instrution::Add(1, 2, 3), Instrution::Sub(4, 5, 6)]);
    assert_eq!(pc.run(&mut rs, &mut regs), Ok(()));
    assert_eq!(pc.run(&mut rs, &mut regs), Ok(()));
    assert_eq!(pc.index, 2);
    pc.reset_with_instrutions(vec![Instrution::Mul(7, 8, 9)]);
    assert_eq!(pc.index, 0);
    assert_eq!(pc.instrutions, vec![Instrution::Mul(7, 8, 9)]);
    assert_eq!(pc.run(&mut rs, &mut regs), Ok(()));
    assert_eq!(rs.mul[0].op, Some(Instrution::Mul(7, 8, 9)));
}

#[test]
fn an_instruction_with_a_missing_register_holds_the_sequencer() {
    let mut m = machine("add x1 x2 x3\nadd x40 x1 x2\nadd x4 x5 x6");
    m.run_to(1);
    assert_eq!(m.pc.index, 1);
    m.run_to(1);
    assert_eq!(m.pc.index, 1);
    assert_eq!(
        m.pc.run(&mut m.rs, &mut m.regs),
        Err(RunError::Issue(IssueError::InvalidRegister))
    );
    m.run_to(6);
    assert_eq!(m.pc.index, 1);
    assert_eq!(reg(&m, 1), Reg { state: None, value: 5 });
    assert_eq!(reg(&m, 4), Reg { state: None, value: 4 });
    assert_cleared_pools(&m);
}

#[test]
fn work_in_flight_finishes_after_the_last_issue() {
    let mut m = machine("mul x4 x5 x6");
    m.run_to(1);
    assert_eq!(m.pc.index, 1);
    m.run_to(10);
    assert_eq!(m.pc.index, 1);
    assert_eq!(reg(&m, 4).state, Some((RsType::Mul, 0)));
    m.run_to(1);
    assert_eq!(reg(&m, 4), Reg { state: None, value: 30 });
    assert_cleared_pools(&m);
}

#[test]
fn a_later_writer_of_a_register_wins() {
    let mut m = machine("add x1 x2 x3\nmul x1 x4 x5");
    m.run_to(2);
    assert_eq!(reg(&m, 1).state, Some((RsType::Mul, 0)));
    m.run_to(2);
    assert_eq!(m.rs.add[0], Slot::default());
    assert_eq!(reg(&m, 1), Reg { state: Some((RsType::Mul, 0)), value: 1 });
    m.run_to(9);
    assert_eq!(reg(&m, 1), Reg { state: None, value: 20 });
}

#[test]
fn a_store_waits_for_the_value_that_it_stores() {
    let mut m = machine("add x1 x2 x3\nsw x1 4 x6");
    m.run_to(2);
    assert_eq!(m.rs.store[0].qj, Some((RsType::Add, 0)));
    assert_eq!(m.rs.store[0].vk, Some(6));
    assert_eq!(m.rs.store[0].addr, Some(10));
    m.run_to(1);
    assert_eq!(m.rs.store[0].time, 2);
    m.run_to(1);
    assert_eq!(m.rs.store[0].vj, Some(5));
    assert_eq!(m.rs.store[0].qj, None);
    assert_eq!(m.rs.store[0].time, 2);
    m.run_to(3);
    assert_eq!(m.rs.store[0], Slot::default());
}

#[test]
fn a_load_waits_for_its_base_and_then_has_its_address() {
    let mut m = machine("add x1 x2 x3\nlw x7 -9 x1");
    m.run_to(2);
    assert_eq!(m.rs.load[0].qj, Some((RsType::Add, 0)));
    assert_eq!(m.rs.load[0].addr, None);
    m.run_to(2);
    assert_eq!(m.rs.load[0].vj, Some(5));
    assert_eq!(m.rs.load[0].addr, Some(-4));
    assert_eq!(m.rs.load[0].time, 2);
    m.run_to(3);
    assert_eq!(reg(&m, 7), Reg { state: None, value: 1 });
}

fn assert_in_order(m: &Tomasulo) {
    let busy_at = |tag: Option<(RsType, u8)>| match tag {
        None => true,
        Some((RsType::Add, i)) => m.rs.add[i as usize].busy,
        Some((RsType::Mul, i)) => m.rs.mul[i as usize].busy,
        Some((RsType::Load, i)) => m.rs.load[i as usize].busy,
        Some((RsType::Store, _)) => false,
    };
    let pools: [(&[Slot], bool); 4] = [
        (&m.rs.add, true),
        (&m.rs.mul, true),
        (&m.rs.store, true),
        (&m.rs.load, false),
    ];
    for (slots, two_operands) in pools {
        for slot in slots {
            assert!(!(slot.vj.is_some() && slot.qj.is_some()));
            assert!(!(slot.vk.is_some() && slot.qk.is_some()));
            if slot.busy {
                assert!(slot.vj.is_some() != slot.qj.is_some());
                if two_operands {
                    assert!(slot.vk.is_some() != slot.qk.is_some());
                } else {
                    assert!(slot.vk.is_none() && slot.qk.is_none());
                }
                assert!(busy_at(slot.qj));
                assert!(busy_at(slot.qk));
                assert!(slot.op.is_some());
                assert!(slot.time >= 0);
            } else {
                assert_eq!(*slot, Slot::default());
            }
        }
    }
    for i in 0..32u8 {
        assert!(busy_at(reg(m, i).state));
    }
}

#[test]
fn every_cycle_leaves_the_machine_in_order() {
    let mut m = machine(
        "lw x1 1 x0\nmul x1 x1 x2\nadd x3 x1 x2\nadd x4 x4 x5\nadd x9 x4 x10\nadd x5 x7 x8\nadd x5 x9 x1\nsw x5 3 x1\ndiv x6 x5 x3\nsub x7 x6 x6\nlw x8 -1 x7\n",
    );
    assert_in_order(&m);
    for _ in 0..80 {
        let busy_before: usize = [&m.rs.add[..], &m.rs.mul[..], &m.rs.load[..]]
            .iter()
            .map(|p| p.iter().filter(|s| s.busy).count())
            .sum();
        let index = m.pc.index;
        m.step();
        assert_in_order(&m);
        let busy_after: usize = [&m.rs.add[..], &m.rs.mul[..], &m.rs.load[..]]
            .iter()
            .map(|p| p.iter().filter(|s| s.busy).count())
            .sum();
        assert!(m.pc.index - index <= 1);
        assert!(busy_before <= busy_after + 1);
    }
    assert_eq!(m.pc.index, 11);
    assert_cleared_pools(&m);
}

#[test]
fn out_of_order_execution_gives_the_values_of_the_program_order() {
    let mut m = machine(
        "lw x1 1 x0\nmul x1 x1 x2\nadd x3 x1 x2\nadd x4 x4 x5\nadd x9 x4 x10\nadd x5 x7 x8\nadd x5 x9 x1\n",
    );
    m.run_to(60);
    assert_eq!(m.pc.index, 7);
    assert_cleared_pools(&m);
    let expected = [(1, 2), (3, 4), (4, 9), (9, 19), (5, 21)];
    for i in 0..32u8 {
        let value = expected
            .iter()
            .find(|(r, _)| *r == i)
            .map(|(_, v)| *v)
            .unwrap_or(i as i32);
        assert_eq!(reg(&m, i), Reg { state: None, value });
    }
}

#[test]
fn errors_are_described_in_words() {
    assert_eq!(DecodeError::TokenCount.describe(), "Parse Error");
    assert_eq!(DecodeError::UnknownOpcode.describe(), "Unknown opcode");
    assert_eq!(DecodeError::BadRegister.describe(), "Check your instruction");
    assert_eq!(DecodeError::BadImmediate.describe(), "Check your instruction");
    assert_eq!(IssueError::NoFreeSlot.describe(), "No Slot");
    assert_eq!(IssueError::InvalidRegister.describe(), "No such register");
    assert_eq!(RunError::ProgramComplete.describe(), "No rest instruction");
    assert_eq!(RunError::Issue(IssueError::NoFreeSlot).describe(), "No Slot");
    assert_eq!(RunError::Issue(IssueError::InvalidRegister).describe(), "No such register");
}

#[test]
fn units_and_operations_have_names() {
    assert_eq!(RsType::Add.name(), "add");
    assert_eq!(RsType::Mul.name(), "mul");
    assert_eq!(RsType::Load.name(), "load");
    assert_eq!(RsType::Store.name(), "store");
    assert_eq!(Instrution::Lw(0, 0, 0).name(), "load");
    assert_eq!(Instrution::Sw(0, 0, 0).name(), "store");
    assert_eq!(Instrution::Add(0, 0, 0).name(), "add");
    assert_eq!(Instrution::Sub(0, 0, 0).name(), "sub");
    assert_eq!(Instrution::Mul(0, 0, 0).name(), "mul");
    assert_eq!(Instrution::Div(0, 0, 0).name(), "div");
}
