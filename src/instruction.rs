use vstd::prelude::*;
use crate::lexer::Op;
use crate::text::chars_eq;

verus! {

/// A register, by its number in the MIPS register file (0 ..= 31).
pub type Reg = u8;

pub const NUM_REGS: usize = 32;

pub const REG_ZERO: Reg = 0;

pub const REG_AT: Reg = 1;

pub const REG_GP: Reg = 28;

pub const REG_SP: Reg = 29;

pub const REG_FP: Reg = 30;

pub const REG_RA: Reg = 31;

/// The canonical name of register `r`.
pub open spec fn reg_name(r: int) -> Seq<char> {
    if r == 0 { seq!['$', 'z', 'e', 'r', 'o'] }
    else if r == 1 { seq!['$', 'a', 't'] }
    else if r == 2 { seq!['$', 'v', '0'] }
    else if r == 3 { seq!['$', 'v', '1'] }
    else if r == 4 { seq!['$', 'a', '0'] }
    else if r == 5 { seq!['$', 'a', '1'] }
    else if r == 6 { seq!['$', 'a', '2'] }
    else if r == 7 { seq!['$', 'a', '3'] }
    else if r == 8 { seq!['$', 't', '0'] }
    else if r == 9 { seq!['$', 't', '1'] }
    else if r == 10 { seq!['$', 't', '2'] }
    else if r == 11 { seq!['$', 't', '3'] }
    else if r == 12 { seq!['$', 't', '4'] }
    else if r == 13 { seq!['$', 't', '5'] }
    else if r == 14 { seq!['$', 't', '6'] }
    else if r == 15 { seq!['$', 't', '7'] }
    else if r == 16 { seq!['$', 's', '0'] }
    else if r == 17 { seq!['$', 's', '1'] }
    else if r == 18 { seq!['$', 's', '2'] }
    else if r == 19 { seq!['$', 's', '3'] }
    else if r == 20 { seq!['$', 's', '4'] }
    else if r == 21 { seq!['$', 's', '5'] }
    else if r == 22 { seq!['$', 's', '6'] }
    else if r == 23 { seq!['$', 's', '7'] }
    else if r == 24 { seq!['$', 't', '8'] }
    else if r == 25 { seq!['$', 't', '9'] }
    else if r == 26 { seq!['$', 'k', '0'] }
    else if r == 27 { seq!['$', 'k', '1'] }
    else if r == 28 { seq!['$', 'g', 'p'] }
    else if r == 29 { seq!['$', 's', 'p'] }
    else if r == 30 { seq!['$', 'f', 'p'] }
    else { seq!['$', 'r', 'a'] }
}

/// The register named `name`, if it is one of the 32 canonical names.
pub open spec fn reg_of_name(name: Seq<char>) -> Option<Reg> {
    if exists|r: int| 0 <= r < 32 && reg_name(r) == name {
        Some((choose|r: int| 0 <= r < 32 && reg_name(r) == name) as Reg)
    } else {
        None
    }
}

/// The canonical name of register `r`.
pub fn register_name(r: Reg) -> (v: Vec<char>)
    requires
        r < 32,
    ensures
        v@ == reg_name(r as int),
{
    let v = if r == 0 { vec!['$', 'z', 'e', 'r', 'o'] }
    else if r == 1 { vec!['$', 'a', 't'] }
    else if r == 2 { vec!['$', 'v', '0'] }
    else if r == 3 { vec!['$', 'v', '1'] }
    else if r == 4 { vec!['$', 'a', '0'] }
    else if r == 5 { vec!['$', 'a', '1'] }
    else if r == 6 { vec!['$', 'a', '2'] }
    else if r == 7 { vec!['$', 'a', '3'] }
    else if r == 8 { vec!['$', 't', '0'] }
    else if r == 9 { vec!['$', 't', '1'] }
    else if r == 10 { vec!['$', 't', '2'] }
    else if r == 11 { vec!['$', 't', '3'] }
    else if r == 12 { vec!['$', 't', '4'] }
    else if r == 13 { vec!['$', 't', '5'] }
    else if r == 14 { vec!['$', 't', '6'] }
    else if r == 15 { vec!['$', 't', '7'] }
    else if r == 16 { vec!['$', 's', '0'] }
    else if r == 17 { vec!['$', 's', '1'] }
    else if r == 18 { vec!['$', 's', '2'] }
    else if r == 19 { vec!['$', 's', '3'] }
    else if r == 20 { vec!['$', 's', '4'] }
    else if r == 21 { vec!['$', 's', '5'] }
    else if r == 22 { vec!['$', 's', '6'] }
    else if r == 23 { vec!['$', 's', '7'] }
    else if r == 24 { vec!['$', 't', '8'] }
    else if r == 25 { vec!['$', 't', '9'] }
    else if r == 26 { vec!['$', 'k', '0'] }
    else if r == 27 { vec!['$', 'k', '1'] }
    else if r == 28 { vec!['$', 'g', 'p'] }
    else if r == 29 { vec!['$', 's', 'p'] }
    else if r == 30 { vec!['$', 'f', 'p'] }
    else { vec!['$', 'r', 'a'] };
    v
}

proof fn lemma_reg_names_distinct(r: int, k: int)
    requires
        0 <= r < 32,
        0 <= k < 32,
        reg_name(r) == reg_name(k),
    ensures
        r == k,
{
    let a = reg_name(r);
    let b = reg_name(k);
    assert(a.len() == b.len());
    assert(a[1] == b[1]);
    if a.len() > 2 {
        assert(a[2] == b[2]);
    }
}

/// The register named `name`, or `None` for any other text.
pub fn register_id(name: &[char]) -> (r: Option<Reg>)
    ensures
        r == reg_of_name(name@),
        r is Some ==> r->0 < 32,
{
    let mut i: u8 = 0;
    while i < 32
        invariant
            i <= 32,
            forall|k: int| 0 <= k < i ==> reg_name(k) != name@,
        decreases 32 - i,
    {
        let candidate = register_name(i);
        if chars_eq(candidate.as_slice(), name) {
            proof {
                let c = choose|r: int| 0 <= r < 32 && reg_name(r) == name@;
                lemma_reg_names_distinct(c, i as int);
            }
            return Some(i);
        }
        i += 1;
    }
    None
}

/// An instruction that the interpreter runs directly. Registers are numbers
/// in `0 ..= 31`; branch and jump targets are labels of the program.
#[derive(Debug, Clone)]
pub enum CoreInstruction {
    /// R[rd] = R[rs] + R[rt] (signed, wrapping)
    Add { rd: Reg, rs: Reg, rt: Reg },
    /// R[rd] = R[rs] + R[rt] (unsigned, wrapping)
    Addu { rd: Reg, rs: Reg, rt: Reg },
    /// R[rt] = R[rs] + imm (signed, wrapping)
    Addi { rt: Reg, rs: Reg, imm: i32 },
    /// R[rt] = R[rs] + imm (unsigned, wrapping)
    Addiu { rt: Reg, rs: Reg, imm: u32 },
    /// R[rd] = R[rs] - R[rt] (signed, wrapping)
    Sub { rd: Reg, rs: Reg, rt: Reg },
    /// R[rd] = R[rs] - R[rt] (unsigned, wrapping)
    Subu { rd: Reg, rs: Reg, rt: Reg },
    And { rd: Reg, rs: Reg, rt: Reg },
    Andi { rt: Reg, rs: Reg, imm: u32 },
    Or { rd: Reg, rs: Reg, rt: Reg },
    Ori { rt: Reg, rs: Reg, imm: u32 },
    Xor { rd: Reg, rs: Reg, rt: Reg },
    Xori { rt: Reg, rs: Reg, imm: u32 },
    /// R[rd] = !(R[rs] | R[rt])
    Nor { rd: Reg, rs: Reg, rt: Reg },
    /// R[rd] = R[rt] << sa
    Sll { rd: Reg, rt: Reg, sa: u32 },
    /// R[rd] = R[rt] >> sa (logical)
    Srl { rd: Reg, rt: Reg, sa: u32 },
    /// R[rd] = R[rt] >> sa (arithmetic)
    Sra { rd: Reg, rt: Reg, sa: u32 },
    /// R[rd] = (R[rs] < R[rt]) as signed values
    Slt { rd: Reg, rs: Reg, rt: Reg },
    /// R[rd] = (R[rs] < R[rt]) as unsigned values
    Sltu { rd: Reg, rs: Reg, rt: Reg },
    Slti { rt: Reg, rs: Reg, imm: i32 },
    Sltiu { rt: Reg, rs: Reg, imm: u32 },
    /// R[rt] = imm << 16
    Lui { rt: Reg, imm: u32 },
    /// R[rt] = M[R[rs] + imm] (word)
    Lw { rt: Reg, rs: Reg, imm: i32 },
    /// M[R[rs] + imm] = R[rt] (word)
    Sw { rt: Reg, rs: Reg, imm: i32 },
    Lb { rt: Reg, rs: Reg, imm: i32 },
    Sb { rt: Reg, rs: Reg, imm: i32 },
    Lh { rt: Reg, rs: Reg, imm: i32 },
    Sh { rt: Reg, rs: Reg, imm: i32 },
    /// PC = address of label
    J { label: Vec<char> },
    /// R[$ra] = PC + 4; PC = address of label
    Jal { label: Vec<char> },
    /// PC = R[rs]
    Jr { rs: Reg },
    /// if R[rs] == R[rt] then PC = address of label
    Beq { rs: Reg, rt: Reg, label: Vec<char> },
    /// if R[rs] != R[rt] then PC = address of label
    Bne { rs: Reg, rt: Reg, label: Vec<char> },
    /// {hi, lo} = R[rs] * R[rt] (signed)
    Mult { rs: Reg, rt: Reg },
    /// {hi, lo} = R[rs] * R[rt] (unsigned)
    Multu { rs: Reg, rt: Reg },
    /// lo = R[rs] / R[rt], hi = R[rs] % R[rt] (signed)
    Div { rs: Reg, rt: Reg },
    /// lo = R[rs] / R[rt], hi = R[rs] % R[rt] (unsigned)
    Divu { rs: Reg, rt: Reg },
    Mfhi { rd: Reg },
    Mflo { rd: Reg },
}

/// An instruction that the assembler expands into core instructions.
#[derive(Debug, Clone)]
pub enum PseudoInstruction {
    /// R[rt] = address of label
    La { rt: Reg, label: Vec<char> },
    /// R[rd] = imm, the literal as written (from -2^31 to 2^32 - 1)
    Li { rd: Reg, imm: i64 },
    /// R[rd] = R[rs]
    Move { rd: Reg, rs: Reg },
    /// if R[rs] < R[rt] (signed) then PC = label
    Blt { rs: Reg, rt: Reg, label: Vec<char> },
    /// if R[rs] > R[rt] (signed) then PC = label
    Bgt { rs: Reg, rt: Reg, label: Vec<char> },
    /// if R[rs] <= R[rt] (signed) then PC = label
    Ble { rs: Reg, rt: Reg, label: Vec<char> },
    /// if R[rs] >= R[rt] (signed) then PC = label
    Bge { rs: Reg, rt: Reg, label: Vec<char> },
}

#[derive(Debug, Clone)]
pub enum Instruction {
    Core(CoreInstruction),
    Pseudo(PseudoInstruction),
}

impl CoreInstruction {
    /// Every register operand is one of the 32 registers.
    pub open spec fn regs_valid(&self) -> bool {
        match *self {
            CoreInstruction::Add { rd, rs, rt } | CoreInstruction::Addu { rd, rs, rt }
            | CoreInstruction::Sub { rd, rs, rt } | CoreInstruction::Subu { rd, rs, rt }
            | CoreInstruction::And { rd, rs, rt } | CoreInstruction::Or { rd, rs, rt }
            | CoreInstruction::Xor { rd, rs, rt } | CoreInstruction::Nor { rd, rs, rt }
            | CoreInstruction::Slt { rd, rs, rt } | CoreInstruction::Sltu { rd, rs, rt } => rd < 32
                && rs < 32 && rt < 32,
            CoreInstruction::Addi { rt, rs, .. } | CoreInstruction::Addiu { rt, rs, .. }
            | CoreInstruction::Andi { rt, rs, .. } | CoreInstruction::Ori { rt, rs, .. }
            | CoreInstruction::Xori { rt, rs, .. } | CoreInstruction::Slti { rt, rs, .. }
            | CoreInstruction::Sltiu { rt, rs, .. } | CoreInstruction::Lw { rt, rs, .. }
            | CoreInstruction::Sw { rt, rs, .. } | CoreInstruction::Lb { rt, rs, .. }
            | CoreInstruction::Sb { rt, rs, .. } | CoreInstruction::Lh { rt, rs, .. }
            | CoreInstruction::Sh { rt, rs, .. } => rt < 32 && rs < 32,
            CoreInstruction::Sll { rd, rt, .. } | CoreInstruction::Srl { rd, rt, .. }
            | CoreInstruction::Sra { rd, rt, .. } => rd < 32 && rt < 32,
            CoreInstruction::Lui { rt, .. } => rt < 32,
            CoreInstruction::J { .. } | CoreInstruction::Jal { .. } => true,
            CoreInstruction::Jr { rs } => rs < 32,
            CoreInstruction::Beq { rs, rt, .. } | CoreInstruction::Bne { rs, rt, .. }
            | CoreInstruction::Mult { rs, rt } | CoreInstruction::Multu { rs, rt }
            | CoreInstruction::Div { rs, rt } | CoreInstruction::Divu { rs, rt } => rs < 32 && rt
                < 32,
            CoreInstruction::Mfhi { rd } | CoreInstruction::Mflo { rd } => rd < 32,
        }
    }
}

/// An instruction as plain values: its mnemonic, its register operands in
/// source order, its immediate (0 when it has none) and its target label
/// (empty when it has none).
pub struct InsnView {
    pub op: Op,
    pub regs: Seq<Reg>,
    pub imm: int,
    pub label: Seq<char>,
}

pub open spec fn insn_view(i: Instruction) -> InsnView {
    match i {
        Instruction::Core(c) => core_view(c),
        Instruction::Pseudo(p) => pseudo_view(p),
    }
}

/// A copy of a label.
pub fn copy_label(v: &Vec<char>) -> (r: Vec<char>)
    ensures
        r@ == v@,
{
    let mut out: Vec<char> = Vec::new();
    let mut i: usize = 0;
    while i < v.len()
        invariant
            i <= v@.len(),
            out@ == v@.subrange(0, i as int),
        decreases v@.len() - i,
    {
        out.push(v[i]);
        i += 1;
    }
    assert(out@ =~= v@);
    out
}

pub open spec fn core_view(c: CoreInstruction) -> InsnView {
    match c {
        CoreInstruction::Add { rd, rs, rt } => InsnView { op: Op::Add, regs: seq![rd, rs, rt], imm: 0, label: Seq::empty() },
        CoreInstruction::Addu { rd, rs, rt } => InsnView { op: Op::Addu, regs: seq![rd, rs, rt], imm: 0, label: Seq::empty() },
        CoreInstruction::Sub { rd, rs, rt } => InsnView { op: Op::Sub, regs: seq![rd, rs, rt], imm: 0, label: Seq::empty() },
        CoreInstruction::Subu { rd, rs, rt } => InsnView { op: Op::Subu, regs: seq![rd, rs, rt], imm: 0, label: Seq::empty() },
        CoreInstruction::And { rd, rs, rt } => InsnView { op: Op::And, regs: seq![rd, rs, rt], imm: 0, label: Seq::empty() },
        CoreInstruction::Or { rd, rs, rt } => InsnView { op: Op::Or, regs: seq![rd, rs, rt], imm: 0, label: Seq::empty() },
        CoreInstruction::Xor { rd, rs, rt } => InsnView { op: Op::Xor, regs: seq![rd, rs, rt], imm: 0, label: Seq::empty() },
        CoreInstruction::Nor { rd, rs, rt } => InsnView { op: Op::Nor, regs: seq![rd, rs, rt], imm: 0, label: Seq::empty() },
        CoreInstruction::Slt { rd, rs, rt } => InsnView { op: Op::Slt, regs: seq![rd, rs, rt], imm: 0, label: Seq::empty() },
        CoreInstruction::Sltu { rd, rs, rt } => InsnView { op: Op::Sltu, regs: seq![rd, rs, rt], imm: 0, label: Seq::empty() },
        CoreInstruction::Sll { rd, rt, sa } => InsnView { op: Op::Sll, regs: seq![rd, rt], imm: sa as int, label: Seq::empty() },
        CoreInstruction::Srl { rd, rt, sa } => InsnView { op: Op::Srl, regs: seq![rd, rt], imm: sa as int, label: Seq::empty() },
        CoreInstruction::Sra { rd, rt, sa } => InsnView { op: Op::Sra, regs: seq![rd, rt], imm: sa as int, label: Seq::empty() },
        CoreInstruction::Addi { rt, rs, imm } => InsnView { op: Op::Addi, regs: seq![rt, rs], imm: imm as int, label: Seq::empty() },
        CoreInstruction::Addiu { rt, rs, imm } => InsnView { op: Op::Addiu, regs: seq![rt, rs], imm: imm as int, label: Seq::empty() },
        CoreInstruction::Andi { rt, rs, imm } => InsnView { op: Op::Andi, regs: seq![rt, rs], imm: imm as int, label: Seq::empty() },
        CoreInstruction::Ori { rt, rs, imm } => InsnView { op: Op::Ori, regs: seq![rt, rs], imm: imm as int, label: Seq::empty() },
        CoreInstruction::Xori { rt, rs, imm } => InsnView { op: Op::Xori, regs: seq![rt, rs], imm: imm as int, label: Seq::empty() },
        CoreInstruction::Slti { rt, rs, imm } => InsnView { op: Op::Slti, regs: seq![rt, rs], imm: imm as int, label: Seq::empty() },
        CoreInstruction::Sltiu { rt, rs, imm } => InsnView { op: Op::Sltiu, regs: seq![rt, rs], imm: imm as int, label: Seq::empty() },
        CoreInstruction::Lui { rt, imm } => InsnView { op: Op::Lui, regs: seq![rt], imm: imm as int, label: Seq::empty() },
        CoreInstruction::Lw { rt, rs, imm } => InsnView { op: Op::Lw, regs: seq![rt, rs], imm: imm as int, label: Seq::empty() },
        CoreInstruction::Sw { rt, rs, imm } => InsnView { op: Op::Sw, regs: seq![rt, rs], imm: imm as int, label: Seq::empty() },
        CoreInstruction::Lb { rt, rs, imm } => InsnView { op: Op::Lb, regs: seq![rt, rs], imm: imm as int, label: Seq::empty() },
        CoreInstruction::Sb { rt, rs, imm } => InsnView { op: Op::Sb, regs: seq![rt, rs], imm: imm as int, label: Seq::empty() },
        CoreInstruction::Lh { rt, rs, imm } => InsnView { op: Op::Lh, regs: seq![rt, rs], imm: imm as int, label: Seq::empty() },
        CoreInstruction::Sh { rt, rs, imm } => InsnView { op: Op::Sh, regs: seq![rt, rs], imm: imm as int, label: Seq::empty() },
        CoreInstruction::Beq { rs, rt, label } => InsnView { op: Op::Beq, regs: seq![rs, rt], imm: 0, label: label@ },
        CoreInstruction::Bne { rs, rt, label } => InsnView { op: Op::Bne, regs: seq![rs, rt], imm: 0, label: label@ },
        CoreInstruction::J { label } => InsnView { op: Op::J, regs: Seq::empty(), imm: 0, label: label@ },
        CoreInstruction::Jal { label } => InsnView { op: Op::Jal, regs: Seq::empty(), imm: 0, label: label@ },
        CoreInstruction::Jr { rs } => InsnView { op: Op::Jr, regs: seq![rs], imm: 0, label: Seq::empty() },
        CoreInstruction::Mult { rs, rt } => InsnView { op: Op::Mult, regs: seq![rs, rt], imm: 0, label: Seq::empty() },
        CoreInstruction::Multu { rs, rt } => InsnView { op: Op::Multu, regs: seq![rs, rt], imm: 0, label: Seq::empty() },
        CoreInstruction::Div { rs, rt } => InsnView { op: Op::Div, regs: seq![rs, rt], imm: 0, label: Seq::empty() },
        CoreInstruction::Divu { rs, rt } => InsnView { op: Op::Divu, regs: seq![rs, rt], imm: 0, label: Seq::empty() },
        CoreInstruction::Mfhi { rd } => InsnView { op: Op::Mfhi, regs: seq![rd], imm: 0, label: Seq::empty() },
        CoreInstruction::Mflo { rd } => InsnView { op: Op::Mflo, regs: seq![rd], imm: 0, label: Seq::empty() },
    }
}

pub open spec fn pseudo_view(c: PseudoInstruction) -> InsnView {
    match c {
        PseudoInstruction::La { rt, label } => InsnView { op: Op::La, regs: seq![rt], imm: 0, label: label@ },
        PseudoInstruction::Li { rd, imm } => InsnView { op: Op::Li, regs: seq![rd], imm: imm as int, label: Seq::empty() },
        PseudoInstruction::Move { rd, rs } => InsnView { op: Op::Move, regs: seq![rd, rs], imm: 0, label: Seq::empty() },
        PseudoInstruction::Blt { rs, rt, label } => InsnView { op: Op::Blt, regs: seq![rs, rt], imm: 0, label: label@ },
        PseudoInstruction::Bgt { rs, rt, label } => InsnView { op: Op::Bgt, regs: seq![rs, rt], imm: 0, label: label@ },
        PseudoInstruction::Ble { rs, rt, label } => InsnView { op: Op::Ble, regs: seq![rs, rt], imm: 0, label: label@ },
        PseudoInstruction::Bge { rs, rt, label } => InsnView { op: Op::Bge, regs: seq![rs, rt], imm: 0, label: label@ },
    }
}

/// The instruction for `op` with register operands `regs` (in source
/// order), immediate `imm` and target `label`.
pub fn build_instruction(op: Op, regs: &Vec<Reg>, imm: i64, label: &Vec<char>) -> (r: Instruction)
    requires
        regs@.len() == op_reg_count(op),
        imm_in_field(op, imm as int),
    ensures
        insn_view(r) == (InsnView {
            op,
            regs: regs@,
            imm: if op_has_imm(op) { imm as int } else { 0 },
            label: if op_has_label(op) { label@ } else { Seq::empty() },
        }),
{
    proof {
        let g = regs@;
        if g.len() == 0 {
            assert(g =~= Seq::<Reg>::empty());
        } else if g.len() == 1 {
            assert(g =~= seq![g[0]]);
        } else if g.len() == 2 {
            assert(g =~= seq![g[0], g[1]]);
        } else if g.len() == 3 {
            assert(g =~= seq![g[0], g[1], g[2]]);
        }
    }
    match op {
        Op::Add => Instruction::Core(CoreInstruction::Add { rd: regs[0], rs: regs[1], rt: regs[2] }),
        Op::Addu => Instruction::Core(CoreInstruction::Addu { rd: regs[0], rs: regs[1], rt: regs[2] }),
        Op::Sub => Instruction::Core(CoreInstruction::Sub { rd: regs[0], rs: regs[1], rt: regs[2] }),
        Op::Subu => Instruction::Core(CoreInstruction::Subu { rd: regs[0], rs: regs[1], rt: regs[2] }),
        Op::And => Instruction::Core(CoreInstruction::And { rd: regs[0], rs: regs[1], rt: regs[2] }),
        Op::Or => Instruction::Core(CoreInstruction::Or { rd: regs[0], rs: regs[1], rt: regs[2] }),
        Op::Xor => Instruction::Core(CoreInstruction::Xor { rd: regs[0], rs: regs[1], rt: regs[2] }),
        Op::Nor => Instruction::Core(CoreInstruction::Nor { rd: regs[0], rs: regs[1], rt: regs[2] }),
        Op::Slt => Instruction::Core(CoreInstruction::Slt { rd: regs[0], rs: regs[1], rt: regs[2] }),
        Op::Sltu => Instruction::Core(CoreInstruction::Sltu { rd: regs[0], rs: regs[1], rt: regs[2] }),
        Op::Sll => Instruction::Core(CoreInstruction::Sll { rd: regs[0], rt: regs[1], sa: imm as u32 }),
        Op::Srl => Instruction::Core(CoreInstruction::Srl { rd: regs[0], rt: regs[1], sa: imm as u32 }),
        Op::Sra => Instruction::Core(CoreInstruction::Sra { rd: regs[0], rt: regs[1], sa: imm as u32 }),
        Op::Addi => Instruction::Core(CoreInstruction::Addi { rt: regs[0], rs: regs[1], imm: imm as i32 }),
        Op::Addiu => Instruction::Core(CoreInstruction::Addiu { rt: regs[0], rs: regs[1], imm: imm as u32 }),
        Op::Andi => Instruction::Core(CoreInstruction::Andi { rt: regs[0], rs: regs[1], imm: imm as u32 }),
        Op::Ori => Instruction::Core(CoreInstruction::Ori { rt: regs[0], rs: regs[1], imm: imm as u32 }),
        Op::Xori => Instruction::Core(CoreInstruction::Xori { rt: regs[0], rs: regs[1], imm: imm as u32 }),
        Op::Slti => Instruction::Core(CoreInstruction::Slti { rt: regs[0], rs: regs[1], imm: imm as i32 }),
        Op::Sltiu => Instruction::Core(CoreInstruction::Sltiu { rt: regs[0], rs: regs[1], imm: imm as u32 }),
        Op::Lui => Instruction::Core(CoreInstruction::Lui { rt: regs[0], imm: imm as u32 }),
        Op::Lw => Instruction::Core(CoreInstruction::Lw { rt: regs[0], rs: regs[1], imm: imm as i32 }),
        Op::Sw => Instruction::Core(CoreInstruction::Sw { rt: regs[0], rs: regs[1], imm: imm as i32 }),
        Op::Lb => Instruction::Core(CoreInstruction::Lb { rt: regs[0], rs: regs[1], imm: imm as i32 }),
        Op::Sb => Instruction::Core(CoreInstruction::Sb { rt: regs[0], rs: regs[1], imm: imm as i32 }),
        Op::Lh => Instruction::Core(CoreInstruction::Lh { rt: regs[0], rs: regs[1], imm: imm as i32 }),
        Op::Sh => Instruction::Core(CoreInstruction::Sh { rt: regs[0], rs: regs[1], imm: imm as i32 }),
        Op::Beq => Instruction::Core(CoreInstruction::Beq { rs: regs[0], rt: regs[1], label: copy_label(label) }),
        Op::Bne => Instruction::Core(CoreInstruction::Bne { rs: regs[0], rt: regs[1], label: copy_label(label) }),
        Op::J => Instruction::Core(CoreInstruction::J { label: copy_label(label) }),
        Op::Jal => Instruction::Core(CoreInstruction::Jal { label: copy_label(label) }),
        Op::Jr => Instruction::Core(CoreInstruction::Jr { rs: regs[0] }),
        Op::Mult => Instruction::Core(CoreInstruction::Mult { rs: regs[0], rt: regs[1] }),
        Op::Multu => Instruction::Core(CoreInstruction::Multu { rs: regs[0], rt: regs[1] }),
        Op::Div => Instruction::Core(CoreInstruction::Div { rs: regs[0], rt: regs[1] }),
        Op::Divu => Instruction::Core(CoreInstruction::Divu { rs: regs[0], rt: regs[1] }),
        Op::Mfhi => Instruction::Core(CoreInstruction::Mfhi { rd: regs[0] }),
        Op::Mflo => Instruction::Core(CoreInstruction::Mflo { rd: regs[0] }),
        Op::La => Instruction::Pseudo(PseudoInstruction::La { rt: regs[0], label: copy_label(label) }),
        Op::Li => Instruction::Pseudo(PseudoInstruction::Li { rd: regs[0], imm: imm }),
        Op::Move => Instruction::Pseudo(PseudoInstruction::Move { rd: regs[0], rs: regs[1] }),
        Op::Blt => Instruction::Pseudo(PseudoInstruction::Blt { rs: regs[0], rt: regs[1], label: copy_label(label) }),
        Op::Bgt => Instruction::Pseudo(PseudoInstruction::Bgt { rs: regs[0], rt: regs[1], label: copy_label(label) }),
        Op::Ble => Instruction::Pseudo(PseudoInstruction::Ble { rs: regs[0], rt: regs[1], label: copy_label(label) }),
        Op::Bge => Instruction::Pseudo(PseudoInstruction::Bge { rs: regs[0], rt: regs[1], label: copy_label(label) }),
    }
}

pub open spec fn op_reg_count(op: Op) -> nat {
    match op {
        Op::Add | Op::Addu | Op::Sub | Op::Subu | Op::And | Op::Or | Op::Xor | Op::Nor | Op::Slt | Op::Sltu => 3,
        Op::Sll | Op::Srl | Op::Sra | Op::Addi | Op::Addiu | Op::Andi | Op::Ori | Op::Xori | Op::Slti | Op::Sltiu | Op::Lw | Op::Sw | Op::Lb | Op::Sb | Op::Lh | Op::Sh | Op::Beq | Op::Bne | Op::Mult | Op::Multu | Op::Div | Op::Divu | Op::Move | Op::Blt | Op::Bgt | Op::Ble | Op::Bge => 2,
        Op::Lui | Op::Jr | Op::Mfhi | Op::Mflo | Op::La | Op::Li => 1,
        Op::J | Op::Jal => 0,
    }
}

pub open spec fn op_has_imm(op: Op) -> bool {
    match op {
        Op::Add | Op::Addu | Op::Sub | Op::Subu | Op::And | Op::Or | Op::Xor | Op::Nor | Op::Slt | Op::Sltu | Op::Beq | Op::Bne | Op::J | Op::Jal | Op::Jr | Op::Mult | Op::Multu | Op::Div | Op::Divu | Op::Mfhi | Op::Mflo | Op::La | Op::Move | Op::Blt | Op::Bgt | Op::Ble | Op::Bge => false,
        Op::Sll | Op::Srl | Op::Sra | Op::Addi | Op::Addiu | Op::Andi | Op::Ori | Op::Xori | Op::Slti | Op::Sltiu | Op::Lui | Op::Lw | Op::Sw | Op::Lb | Op::Sb | Op::Lh | Op::Sh | Op::Li => true,
    }
}

pub open spec fn op_has_label(op: Op) -> bool {
    match op {
        Op::Add | Op::Addu | Op::Sub | Op::Subu | Op::And | Op::Or | Op::Xor | Op::Nor | Op::Slt | Op::Sltu | Op::Sll | Op::Srl | Op::Sra | Op::Addi | Op::Addiu | Op::Andi | Op::Ori | Op::Xori | Op::Slti | Op::Sltiu | Op::Lui | Op::Lw | Op::Sw | Op::Lb | Op::Sb | Op::Lh | Op::Sh | Op::Jr | Op::Mult | Op::Multu | Op::Div | Op::Divu | Op::Mfhi | Op::Mflo | Op::Li | Op::Move => false,
        Op::Beq | Op::Bne | Op::J | Op::Jal | Op::La | Op::Blt | Op::Bgt | Op::Ble | Op::Bge => true,
    }
}

/// `v` fits the immediate field of `op` (any value, for an op without one).
pub open spec fn imm_in_field(op: Op, v: int) -> bool {
    match op {
        Op::Add | Op::Addu | Op::Sub | Op::Subu | Op::And | Op::Or | Op::Xor | Op::Nor | Op::Slt | Op::Sltu | Op::Beq | Op::Bne | Op::J | Op::Jal | Op::Jr | Op::Mult | Op::Multu | Op::Div | Op::Divu | Op::Mfhi | Op::Mflo | Op::La | Op::Move | Op::Blt | Op::Bgt | Op::Ble | Op::Bge => true,
        Op::Sll | Op::Srl | Op::Sra => 0 <= v <= 31,
        Op::Addi | Op::Slti | Op::Lw | Op::Sw | Op::Lb | Op::Sb | Op::Lh | Op::Sh => -0x8000_0000 <= v <= 0x7FFF_FFFF,
        Op::Addiu | Op::Andi | Op::Ori | Op::Xori | Op::Sltiu | Op::Lui => 0 <= v <= 0xFFFF_FFFF,
        Op::Li => -0x8000_0000 <= v <= 0xFFFF_FFFF,
    }
}

/// A copy of `c`.
pub fn copy_core(c: &CoreInstruction) -> (r: CoreInstruction)
    ensures
        core_view(r) == core_view(*c),
        c.regs_valid() ==> r.regs_valid(),
{
    match c {
        CoreInstruction::Add { rd, rs, rt } => CoreInstruction::Add { rd: *rd, rs: *rs, rt: *rt },
        CoreInstruction::Addu { rd, rs, rt } => CoreInstruction::Addu { rd: *rd, rs: *rs, rt: *rt },
        CoreInstruction::Sub { rd, rs, rt } => CoreInstruction::Sub { rd: *rd, rs: *rs, rt: *rt },
        CoreInstruction::Subu { rd, rs, rt } => CoreInstruction::Subu { rd: *rd, rs: *rs, rt: *rt },
        CoreInstruction::And { rd, rs, rt } => CoreInstruction::And { rd: *rd, rs: *rs, rt: *rt },
        CoreInstruction::Or { rd, rs, rt } => CoreInstruction::Or { rd: *rd, rs: *rs, rt: *rt },
        CoreInstruction::Xor { rd, rs, rt } => CoreInstruction::Xor { rd: *rd, rs: *rs, rt: *rt },
        CoreInstruction::Nor { rd, rs, rt } => CoreInstruction::Nor { rd: *rd, rs: *rs, rt: *rt },
        CoreInstruction::Slt { rd, rs, rt } => CoreInstruction::Slt { rd: *rd, rs: *rs, rt: *rt },
        CoreInstruction::Sltu { rd, rs, rt } => CoreInstruction::Sltu { rd: *rd, rs: *rs, rt: *rt },
        CoreInstruction::Sll { rd, rt, sa } => CoreInstruction::Sll { rd: *rd, rt: *rt, sa: *sa },
        CoreInstruction::Srl { rd, rt, sa } => CoreInstruction::Srl { rd: *rd, rt: *rt, sa: *sa },
        CoreInstruction::Sra { rd, rt, sa } => CoreInstruction::Sra { rd: *rd, rt: *rt, sa: *sa },
        CoreInstruction::Addi { rt, rs, imm } => CoreInstruction::Addi { rt: *rt, rs: *rs, imm: *imm },
        CoreInstruction::Addiu { rt, rs, imm } => CoreInstruction::Addiu { rt: *rt, rs: *rs, imm: *imm },
        CoreInstruction::Andi { rt, rs, imm } => CoreInstruction::Andi { rt: *rt, rs: *rs, imm: *imm },
        CoreInstruction::Ori { rt, rs, imm } => CoreInstruction::Ori { rt: *rt, rs: *rs, imm: *imm },
        CoreInstruction::Xori { rt, rs, imm } => CoreInstruction::Xori { rt: *rt, rs: *rs, imm: *imm },
        CoreInstruction::Slti { rt, rs, imm } => CoreInstruction::Slti { rt: *rt, rs: *rs, imm: *imm },
        CoreInstruction::Sltiu { rt, rs, imm } => CoreInstruction::Sltiu { rt: *rt, rs: *rs, imm: *imm },
        CoreInstruction::Lui { rt, imm } => CoreInstruction::Lui { rt: *rt, imm: *imm },
        CoreInstruction::Lw { rt, rs, imm } => CoreInstruction::Lw { rt: *rt, rs: *rs, imm: *imm },
        CoreInstruction::Sw { rt, rs, imm } => CoreInstruction::Sw { rt: *rt, rs: *rs, imm: *imm },
        CoreInstruction::Lb { rt, rs, imm } => CoreInstruction::Lb { rt: *rt, rs: *rs, imm: *imm },
        CoreInstruction::Sb { rt, rs, imm } => CoreInstruction::Sb { rt: *rt, rs: *rs, imm: *imm },
        CoreInstruction::Lh { rt, rs, imm } => CoreInstruction::Lh { rt: *rt, rs: *rs, imm: *imm },
        CoreInstruction::Sh { rt, rs, imm } => CoreInstruction::Sh { rt: *rt, rs: *rs, imm: *imm },
        CoreInstruction::Beq { rs, rt, label } => CoreInstruction::Beq { rs: *rs, rt: *rt, label: copy_label(label) },
        CoreInstruction::Bne { rs, rt, label } => CoreInstruction::Bne { rs: *rs, rt: *rt, label: copy_label(label) },
        CoreInstruction::J { label } => CoreInstruction::J { label: copy_label(label) },
        CoreInstruction::Jal { label } => CoreInstruction::Jal { label: copy_label(label) },
        CoreInstruction::Jr { rs } => CoreInstruction::Jr { rs: *rs },
        CoreInstruction::Mult { rs, rt } => CoreInstruction::Mult { rs: *rs, rt: *rt },
        CoreInstruction::Multu { rs, rt } => CoreInstruction::Multu { rs: *rs, rt: *rt },
        CoreInstruction::Div { rs, rt } => CoreInstruction::Div { rs: *rs, rt: *rt },
        CoreInstruction::Divu { rs, rt } => CoreInstruction::Divu { rs: *rs, rt: *rt },
        CoreInstruction::Mfhi { rd } => CoreInstruction::Mfhi { rd: *rd },
        CoreInstruction::Mflo { rd } => CoreInstruction::Mflo { rd: *rd },
    }
}

/// An instruction whose register operands are all below 32 is well formed.
pub proof fn lemma_core_regs_valid(c: CoreInstruction)
    requires
        forall|i: int| 0 <= i < core_view(c).regs.len() ==> #[trigger] core_view(c).regs[i] < 32,
    ensures
        c.regs_valid(),
{
    let v = core_view(c).regs;
    if v.len() > 0 {
        assert(v[0] < 32);
    }
    if v.len() > 1 {
        assert(v[1] < 32);
    }
    if v.len() > 2 {
        assert(v[2] < 32);
    }
}

} // verus!
