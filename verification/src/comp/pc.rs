//! Instructions, their textual form, and the sequencer that issues a
//! program in order.

use super::reg::{Reg, RegGroup};
use super::rs::{issue_error_text, regs_issued, IssueError, Rs, RsView};
use super::text::{
    chars_of, join, lemma_parse_render, lemma_render_plain, lemma_split_joined,
    parse_chars, parse_i8, render_i8, render_int, split, split_chars, views,
};
use super::wf::coherent;
use vstd::prelude::*;
use vstd::string::*;

verus! {

/// The operations of the machine.
#[derive(Clone, Copy, Debug, PartialEq, Eq, Structural)]
pub enum Opcode {
    Lw,
    Sw,
    Add,
    Sub,
    Mul,
    Div,
}

/// One decoded instruction.
///
/// `Lw(dest, offset, base)` and `Sw(source, offset, base)` hold an immediate
/// in the middle; the other four hold `(dest, source1, source2)`. Register
/// numbers are kept as written: nothing here confines them to the registers
/// that exist.
#[derive(Clone, Copy, Debug, PartialEq, Eq, Structural)]
pub enum Instrution {
    Lw(i8, i8, i8),
    Sw(i8, i8, i8),
    Add(i8, i8, i8),
    Sub(i8, i8, i8),
    Mul(i8, i8, i8),
    Div(i8, i8, i8),
}

/// Why a line of text is no instruction.
#[derive(Clone, Copy, Debug, PartialEq, Eq, Structural)]
pub enum DecodeError {
    /// The line does not consist of four fields with one blank between
    /// neighbours.
    TokenCount,
    /// The first field is none of the six mnemonics.
    UnknownOpcode,
    /// A register field is not `x` followed by a numeral of 8 bits.
    BadRegister,
    /// The offset of a load or store is not a numeral of 8 bits.
    BadImmediate,
}

/// Why the sequencer issued nothing.
#[derive(Clone, Copy, Debug, PartialEq, Eq, Structural)]
pub enum RunError {
    /// Every instruction of the program has been issued.
    ProgramComplete,
    /// The next instruction cannot be issued now.
    Issue(IssueError),
}

/// The sequencer: the program, and the index of the instruction that is
/// issued next.
#[derive(Debug, PartialEq, Eq)]
pub struct Pc {
    pub index: usize,
    pub instrutions: Vec<Instrution>,
}

/// The sequencer's state as an index and a sequence of instructions.
pub struct PcView {
    pub index: nat,
    pub instrutions: Seq<Instrution>,
}

impl View for Pc {
    type V = PcView;

    open spec fn view(&self) -> PcView {
        PcView { index: self.index as nat, instrutions: self.instrutions@ }
    }
}

impl PcView {
    /// The instruction that is issued next, if the program has one left.
    pub open spec fn next(self) -> Option<Instrution> {
        if self.index < self.instrutions.len() {
            Some(self.instrutions[self.index as int])
        } else {
            None
        }
    }

    /// What an attempt to issue the next instruction reports, with the
    /// pools and registers as given.
    pub open spec fn attempt(self, rs: RsView, regs: Seq<Reg>) -> Result<(), RunError> {
        match self.next() {
            None => Err(RunError::ProgramComplete),
            Some(instr) => match rs.issued(regs, instr) {
                Ok(_) => Ok(()),
                Err(e) => Err(RunError::Issue(e)),
            },
        }
    }

    /// The sequencer after the attempt: one instruction further if the
    /// attempt succeeded, and where it was if not.
    pub open spec fn ran(self, rs: RsView, regs: Seq<Reg>) -> PcView {
        if self.attempt(rs, regs) is Ok {
            PcView { index: self.index + 1, ..self }
        } else {
            self
        }
    }

    /// The pools after the attempt.
    pub open spec fn rs_ran(self, rs: RsView, regs: Seq<Reg>) -> RsView {
        match self.next() {
            Some(instr) => match rs.issued(regs, instr) {
                Ok(after) => after,
                Err(_) => rs,
            },
            None => rs,
        }
    }

    /// The registers after the attempt.
    pub open spec fn regs_ran(self, rs: RsView, regs: Seq<Reg>) -> Seq<Reg> {
        match self.next() {
            Some(instr) => regs_issued(rs, regs, instr),
            None => regs,
        }
    }
}

impl Default for Pc {
    fn default() -> (r: Self)
        ensures
            r@ == (PcView { index: 0, instrutions: Seq::empty() }),
    {
        Pc { index: 0, instrutions: Vec::new() }
    }
}

impl Pc {
    /// Loads a program and starts at its first instruction.
    pub fn reset_with_instrutions(&mut self, instrutions: Vec<Instrution>)
        ensures
            final(self)@ == (PcView { index: 0, instrutions: instrutions@ }),
    {
        self.instrutions = instrutions;
        self.index = 0;
    }

    /// Tries to issue the next instruction, and moves on to the one after
    /// it only if that succeeded: an instruction that finds no free slot is
    /// tried again by the next call.
    pub fn run(&mut self, rs: &mut Rs, regs: &mut RegGroup) -> (r: Result<(), RunError>)
        ensures
            r == old(self)@.attempt(old(rs)@, old(regs)@),
            final(self)@ == old(self)@.ran(old(rs)@, old(regs)@),
            final(rs)@ == old(self)@.rs_ran(old(rs)@, old(regs)@),
            final(regs)@ == old(self)@.regs_ran(old(rs)@, old(regs)@),
            coherent(old(rs)@, old(regs)@) ==> coherent(final(rs)@, final(regs)@),
    {
        if self.index >= self.instrutions.len() {
            return Err(RunError::ProgramComplete);
        }
        let instr = self.instrutions[self.index];
        match rs.try_issue(instr, regs) {
            Ok(()) => {
                self.index = self.index + 1;
                Ok(())
            },
            Err(e) => Err(RunError::Issue(e)),
        }
    }
}

/// The name under which an operation is shown in a slot.
pub open spec fn operation_name(op: Opcode) -> Seq<char> {
    match op {
        Opcode::Lw => "load"@,
        Opcode::Sw => "store"@,
        Opcode::Add => "add"@,
        Opcode::Sub => "sub"@,
        Opcode::Mul => "mul"@,
        Opcode::Div => "div"@,
    }
}

/// The words in which a decode error is reported.
pub open spec fn decode_error_text(e: DecodeError) -> Seq<char> {
    match e {
        DecodeError::TokenCount => "Parse Error"@,
        DecodeError::UnknownOpcode => "Unknown opcode"@,
        DecodeError::BadRegister => "Check your instruction"@,
        DecodeError::BadImmediate => "Check your instruction"@,
    }
}

/// The words in which the sequencer's error is reported.
pub open spec fn run_error_text(e: RunError) -> Seq<char> {
    match e {
        RunError::ProgramComplete => "No rest instruction"@,
        RunError::Issue(inner) => issue_error_text(inner),
    }
}

impl DecodeError {
    /// The error in words.
    pub fn describe(&self) -> (r: &'static str)
        ensures
            r@ == decode_error_text(*self),
    {
        match self {
            DecodeError::TokenCount => "Parse Error",
            DecodeError::UnknownOpcode => "Unknown opcode",
            DecodeError::BadRegister => "Check your instruction",
            DecodeError::BadImmediate => "Check your instruction",
        }
    }
}

impl RunError {
    /// The error in words.
    pub fn describe(&self) -> (r: &'static str)
        ensures
            r@ == run_error_text(*self),
    {
        match self {
            RunError::ProgramComplete => "No rest instruction",
            RunError::Issue(inner) => inner.describe(),
        }
    }
}

/// The mnemonic of an operation.
pub open spec fn mnemonic(op: Opcode) -> Seq<char> {
    match op {
        Opcode::Lw => seq!['l', 'w'],
        Opcode::Sw => seq!['s', 'w'],
        Opcode::Add => seq!['a', 'd', 'd'],
        Opcode::Sub => seq!['s', 'u', 'b'],
        Opcode::Mul => seq!['m', 'u', 'l'],
        Opcode::Div => seq!['d', 'i', 'v'],
    }
}

/// The operation that a field names, if it is a mnemonic.
pub open spec fn opcode_named(field: Seq<char>) -> Option<Opcode> {
    if field =~= mnemonic(Opcode::Lw) {
        Some(Opcode::Lw)
    } else if field =~= mnemonic(Opcode::Sw) {
        Some(Opcode::Sw)
    } else if field =~= mnemonic(Opcode::Add) {
        Some(Opcode::Add)
    } else if field =~= mnemonic(Opcode::Sub) {
        Some(Opcode::Sub)
    } else if field =~= mnemonic(Opcode::Mul) {
        Some(Opcode::Mul)
    } else if field =~= mnemonic(Opcode::Div) {
        Some(Opcode::Div)
    } else {
        None
    }
}

/// Whether the middle field of the operation is an immediate, not a
/// register.
pub open spec fn has_immediate(op: Opcode) -> bool {
    op == Opcode::Lw || op == Opcode::Sw
}

/// The register number that a field of the form `x<numeral>` names.
pub open spec fn register_named(field: Seq<char>) -> Option<i8> {
    if field.len() > 0 && field[0] == 'x' {
        parse_i8(field.drop_first())
    } else {
        None
    }
}

/// The number in the middle field of an instruction with operation `op`.
pub open spec fn middle_named(op: Opcode, field: Seq<char>) -> Option<i8> {
    if has_immediate(op) {
        parse_i8(field)
    } else {
        register_named(field)
    }
}

/// The instruction that a line of text denotes, or the first fault found in
/// it: the number of fields is checked first, then the mnemonic, then the
/// three operands from left to right.
pub open spec fn decode_line(line: Seq<char>) -> Result<Instrution, DecodeError> {
    let fields = split(line, ' ');
    if fields.len() != 4 {
        Err(DecodeError::TokenCount)
    } else {
        match opcode_named(fields[0]) {
            None => Err(DecodeError::UnknownOpcode),
            Some(op) => match register_named(fields[1]) {
                None => Err(DecodeError::BadRegister),
                Some(a) => match middle_named(op, fields[2]) {
                    None => Err(
                        if has_immediate(op) {
                            DecodeError::BadImmediate
                        } else {
                            DecodeError::BadRegister
                        },
                    ),
                    Some(b) => match register_named(fields[3]) {
                        None => Err(DecodeError::BadRegister),
                        Some(c) => Ok(Instrution::assemble(op, a, b, c)),
                    },
                },
            },
        }
    }
}

/// The program that the lines denote: lines of fewer than three characters
/// are passed over, every other line must be an instruction, and the first
/// line that is none decides the error.
pub open spec fn decode_lines(lines: Seq<Seq<char>>) -> Result<Seq<Instrution>, DecodeError>
    decreases lines.len(),
{
    if lines.len() == 0 {
        Ok(Seq::empty())
    } else {
        match decode_lines(lines.drop_last()) {
            Err(e) => Err(e),
            Ok(program) => if lines.last().len() < 3 {
                Ok(program)
            } else {
                match decode_line(lines.last()) {
                    Err(e) => Err(e),
                    Ok(instr) => Ok(program.push(instr)),
                }
            },
        }
    }
}

/// The program that a text denotes, one instruction per line.
pub open spec fn decode_text(text: Seq<char>) -> Result<Seq<Instrution>, DecodeError> {
    decode_lines(split(text, '\n'))
}

/// The text of a register operand.
pub open spec fn register_text(r: i8) -> Seq<char> {
    seq!['x'] + render_int(r as int)
}

/// The text of the middle operand of an instruction with operation `op`.
pub open spec fn middle_text(op: Opcode, b: i8) -> Seq<char> {
    if has_immediate(op) {
        render_int(b as int)
    } else {
        register_text(b)
    }
}

impl Instrution {
    /// The operation of the instruction.
    pub open spec fn opcode(self) -> Opcode {
        match self {
            Instrution::Lw(_, _, _) => Opcode::Lw,
            Instrution::Sw(_, _, _) => Opcode::Sw,
            Instrution::Add(_, _, _) => Opcode::Add,
            Instrution::Sub(_, _, _) => Opcode::Sub,
            Instrution::Mul(_, _, _) => Opcode::Mul,
            Instrution::Div(_, _, _) => Opcode::Div,
        }
    }

    /// The three operand fields of the instruction, in the order written.
    pub open spec fn fields(self) -> (i8, i8, i8) {
        match self {
            Instrution::Lw(a, b, c) => (a, b, c),
            Instrution::Sw(a, b, c) => (a, b, c),
            Instrution::Add(a, b, c) => (a, b, c),
            Instrution::Sub(a, b, c) => (a, b, c),
            Instrution::Mul(a, b, c) => (a, b, c),
            Instrution::Div(a, b, c) => (a, b, c),
        }
    }

    /// The instruction with the given operation and operand fields.
    pub open spec fn assemble(op: Opcode, a: i8, b: i8, c: i8) -> Instrution {
        match op {
            Opcode::Lw => Instrution::Lw(a, b, c),
            Opcode::Sw => Instrution::Sw(a, b, c),
            Opcode::Add => Instrution::Add(a, b, c),
            Opcode::Sub => Instrution::Sub(a, b, c),
            Opcode::Mul => Instrution::Mul(a, b, c),
            Opcode::Div => Instrution::Div(a, b, c),
        }
    }

    /// The four fields of the instruction's text.
    pub open spec fn tuple_text(self) -> (Seq<char>, Seq<char>, Seq<char>, Seq<char>) {
        (
            mnemonic(self.opcode()),
            register_text(self.fields().0),
            middle_text(self.opcode(), self.fields().1),
            register_text(self.fields().2),
        )
    }

    /// The instruction's line of text: its four fields with one blank
    /// between neighbours.
    pub open spec fn line_text(self) -> Seq<char> {
        join(
            seq![
                self.tuple_text().0,
                self.tuple_text().1,
                self.tuple_text().2,
                self.tuple_text().3,
            ],
            ' ',
        )
    }

    /// The operation of the instruction.
    pub fn kind(&self) -> (r: Opcode)
        ensures
            r == self.opcode(),
    {
        match self {
            Instrution::Lw(_, _, _) => Opcode::Lw,
            Instrution::Sw(_, _, _) => Opcode::Sw,
            Instrution::Add(_, _, _) => Opcode::Add,
            Instrution::Sub(_, _, _) => Opcode::Sub,
            Instrution::Mul(_, _, _) => Opcode::Mul,
            Instrution::Div(_, _, _) => Opcode::Div,
        }
    }

    /// The name under which the instruction's operation is shown.
    pub fn name(&self) -> (r: &'static str)
        ensures
            r@ == operation_name(self.opcode()),
    {
        match self {
            Instrution::Lw(_, _, _) => "load",
            Instrution::Sw(_, _, _) => "store",
            Instrution::Add(_, _, _) => "add",
            Instrution::Sub(_, _, _) => "sub",
            Instrution::Mul(_, _, _) => "mul",
            Instrution::Div(_, _, _) => "div",
        }
    }

    /// The three operand fields of the instruction, in the order written.
    pub fn operands(&self) -> (r: (i8, i8, i8))
        ensures
            r == self.fields(),
    {
        match self {
            Instrution::Lw(a, b, c) => (*a, *b, *c),
            Instrution::Sw(a, b, c) => (*a, *b, *c),
            Instrution::Add(a, b, c) => (*a, *b, *c),
            Instrution::Sub(a, b, c) => (*a, *b, *c),
            Instrution::Mul(a, b, c) => (*a, *b, *c),
            Instrution::Div(a, b, c) => (*a, *b, *c),
        }
    }

    /// Builds the instruction with the given operation and operand fields.
    pub fn new(op: Opcode, a: i8, b: i8, c: i8) -> (r: Instrution)
        ensures
            r == Instrution::assemble(op, a, b, c),
            r.opcode() == op,
            r.fields() == (a, b, c),
    {
        match op {
            Opcode::Lw => Instrution::Lw(a, b, c),
            Opcode::Sw => Instrution::Sw(a, b, c),
            Opcode::Add => Instrution::Add(a, b, c),
            Opcode::Sub => Instrution::Sub(a, b, c),
            Opcode::Mul => Instrution::Mul(a, b, c),
            Opcode::Div => Instrution::Div(a, b, c),
        }
    }

    /// Renders the instruction as the four fields of its text: the
    /// mnemonic, then the three operands, registers as `x` and the number,
    /// the offset of a load or store as the bare number.
    pub fn to_tuple(&self) -> (r: (String, String, String, String))
        ensures
            (r.0@, r.1@, r.2@, r.3@) == self.tuple_text(),
    {
        let op = self.kind();
        let (a, b, c) = self.operands();
        proof {
            reveal_strlit("lw");
            reveal_strlit("sw");
            reveal_strlit("add");
            reveal_strlit("sub");
            reveal_strlit("mul");
            reveal_strlit("div");
        }
        let name = match op {
            Opcode::Lw => "lw",
            Opcode::Sw => "sw",
            Opcode::Add => "add",
            Opcode::Sub => "sub",
            Opcode::Mul => "mul",
            Opcode::Div => "div",
        };
        let middle = match op {
            Opcode::Lw | Opcode::Sw => render_i8(b),
            _ => render_register(b),
        };
        (String::from_str(name), render_register(a), middle, render_register(c))
    }

    /// Decodes one line of text, `op field field field` with one blank
    /// between neighbours.
    pub fn decode(text: &str) -> (r: Result<Instrution, DecodeError>)
        ensures
            r == decode_line(text@),
    {
        let line = chars_of(text);
        decode_chars(&line)
    }
}

/// Writes a register operand.
pub fn render_register(r: i8) -> (text: String)
    ensures
        text@ == register_text(r),
{
    proof {
        reveal_strlit("x");
    }
    let mut out = String::from_str("x");
    let number = render_i8(r);
    out.append(number.as_str());
    out
}

/// Reads the mnemonic of an operation.
pub fn read_opcode(field: &Vec<char>) -> (r: Option<Opcode>)
    ensures
        r == opcode_named(field@),
{
    if field.len() == 2 {
        if field[0] == 'l' && field[1] == 'w' {
            Some(Opcode::Lw)
        } else if field[0] == 's' && field[1] == 'w' {
            Some(Opcode::Sw)
        } else {
            None
        }
    } else if field.len() == 3 {
        let (x, y, z) = (field[0], field[1], field[2]);
        if x == 'a' && y == 'd' && z == 'd' {
            Some(Opcode::Add)
        } else if x == 's' && y == 'u' && z == 'b' {
            Some(Opcode::Sub)
        } else if x == 'm' && y == 'u' && z == 'l' {
            Some(Opcode::Mul)
        } else if x == 'd' && y == 'i' && z == 'v' {
            Some(Opcode::Div)
        } else {
            None
        }
    } else {
        None
    }
}

/// Reads a register operand.
pub fn read_register(field: &Vec<char>) -> (r: Option<i8>)
    ensures
        r == register_named(field@),
{
    if field.len() > 0 && field[0] == 'x' {
        parse_chars(field, 1)
    } else {
        None
    }
}

/// Decodes one line, given as its characters.
pub fn decode_chars(line: &Vec<char>) -> (r: Result<Instrution, DecodeError>)
    ensures
        r == decode_line(line@),
{
    let fields = split_chars(line, ' ');
    if fields.len() != 4 {
        return Err(DecodeError::TokenCount);
    }
    assert(forall|i: int| 0 <= i < 4 ==> fields@[i]@ == #[trigger] split(line@, ' ')[i]);
    let op = match read_opcode(&fields[0]) {
        Some(op) => op,
        None => {
            return Err(DecodeError::UnknownOpcode);
        },
    };
    let a = match read_register(&fields[1]) {
        Some(a) => a,
        None => {
            return Err(DecodeError::BadRegister);
        },
    };
    let b = match op {
        Opcode::Lw | Opcode::Sw => match parse_chars(&fields[2], 0) {
            Some(b) => b,
            None => {
                assert(fields@[2]@.subrange(0, fields@[2]@.len() as int) =~= fields@[2]@);
                return Err(DecodeError::BadImmediate);
            },
        },
        _ => match read_register(&fields[2]) {
            Some(b) => b,
            None => {
                return Err(DecodeError::BadRegister);
            },
        },
    };
    assert(fields@[2]@.subrange(0, fields@[2]@.len() as int) =~= fields@[2]@);
    let c = match read_register(&fields[3]) {
        Some(c) => c,
        None => {
            return Err(DecodeError::BadRegister);
        },
    };
    Ok(Instrution::new(op, a, b, c))
}

/// Decodes a program, one instruction per line. Lines of fewer than three
/// characters are passed over.
pub fn decode_program(text: &str) -> (r: Result<Vec<Instrution>, DecodeError>)
    ensures
        match r {
            Ok(program) => decode_text(text@) == Ok::<Seq<Instrution>, DecodeError>(program@),
            Err(e) => decode_text(text@) == Err::<Seq<Instrution>, DecodeError>(e),
        },
{
    let chars = chars_of(text);
    let lines = split_chars(&chars, '\n');
    let mut program: Vec<Instrution> = Vec::new();
    let mut i: usize = 0;
    while i < lines.len()
        invariant
            0 <= i <= lines.len(),
            views(lines@) == split(text@, '\n'),
            decode_lines(views(lines@).take(i as int)) == Ok::<Seq<Instrution>, DecodeError>(
                program@,
            ),
        decreases lines.len() - i,
    {
        proof {
            let done = views(lines@).take(i as int);
            let next = views(lines@).take(i + 1);
            assert(next.drop_last() =~= done);
            lemma_decode_lines_fails(views(lines@), i + 1);
        }
        if lines[i].len() >= 3 {
            match decode_chars(&lines[i]) {
                Ok(instr) => {
                    program.push(instr);
                },
                Err(e) => {
                    return Err(e);
                },
            }
        }
        i += 1;
    }
    assert(views(lines@).take(lines.len() as int) =~= views(lines@));
    Ok(program)
}

/// Once a line is no instruction, no later line mends the program.
pub proof fn lemma_decode_lines_fails(lines: Seq<Seq<char>>, k: int)
    requires
        0 <= k <= lines.len(),
    ensures
        decode_lines(lines.take(k)) is Err ==> decode_lines(lines) == decode_lines(lines.take(k)),
    decreases lines.len(),
{
    if k == lines.len() {
        assert(lines.take(k) =~= lines);
    } else {
        lemma_decode_lines_fails(lines.drop_last(), k);
        assert(lines.drop_last().take(k) =~= lines.take(k));
    }
}

/// Every instruction is what its own line of text denotes.
pub proof fn lemma_decode_rendered(instr: Instrution)
    ensures
        decode_line(instr.line_text()) == Ok::<Instrution, DecodeError>(instr),
{
    let op = instr.opcode();
    let (a, b, c) = instr.fields();
    let t = instr.tuple_text();
    lemma_render_plain(a as int);
    lemma_render_plain(b as int);
    lemma_render_plain(c as int);
    lemma_parse_render(a);
    lemma_parse_render(b);
    lemma_parse_render(c);
    let four = seq![t.0, t.1, t.2, t.3];
    lemma_split_joined(four, ' ');
    assert(t.1.drop_first() =~= render_int(a as int));
    assert(t.3.drop_first() =~= render_int(c as int));
    if !has_immediate(op) {
        assert(t.2.drop_first() =~= render_int(b as int));
    }
}

/// Decoding a line and rendering the instruction again reproduces the
/// mnemonic as it was written, and operand fields that denote the same
/// numbers: the rendered line decodes to the same instruction.
pub proof fn lemma_render_decoded(line: Seq<char>)
    requires
        decode_line(line) is Ok,
    ensures
        decode_line(line)->Ok_0.tuple_text().0 == split(line, ' ')[0],
        register_named(decode_line(line)->Ok_0.tuple_text().1) == register_named(
            split(line, ' ')[1],
        ),
        middle_named(decode_line(line)->Ok_0.opcode(), decode_line(line)->Ok_0.tuple_text().2)
            == middle_named(decode_line(line)->Ok_0.opcode(), split(line, ' ')[2]),
        register_named(decode_line(line)->Ok_0.tuple_text().3) == register_named(
            split(line, ' ')[3],
        ),
        decode_line(decode_line(line)->Ok_0.line_text()) == decode_line(line),
{
    let instr = decode_line(line)->Ok_0;
    let (a, b, c) = instr.fields();
    lemma_decode_rendered(instr);
    lemma_parse_render(a);
    lemma_parse_render(b);
    lemma_parse_render(c);
    let t = instr.tuple_text();
    assert(t.1.drop_first() =~= render_int(a as int));
    assert(t.3.drop_first() =~= render_int(c as int));
    if !has_immediate(instr.opcode()) {
        assert(t.2.drop_first() =~= render_int(b as int));
    }
}

} // verus!
