use vstd::prelude::*;
use crate::instruction::{
    copy_label, reg_of_name, register_id, CoreInstruction, Reg, NUM_REGS, REG_FP, REG_GP, REG_RA, REG_SP,
};
use crate::text::chars_of;
use crate::memory::{
    MemView, Memory, DEFAULT_STACK_BASE_ADDRESS, DEFAULT_STACK_POINTER,
    DEFAULT_STATIC_DATA_BASE_ADDRESS, DEFAULT_TEXT_BASE_ADDRESS,
};
use crate::assembler::{assembled, core_views};
use crate::parser::ParseError;
use crate::program::{
    find_symbol, pc_index, same_error, symbol_lookup, EmuError, Program, Symbols,
};

verus! {

/// `v` reduced to 32 bits.
pub open spec fn wrap32(v: int) -> u32 {
    (v % 0x1_0000_0000) as u32
}

/// `x` read as a two's-complement number.
pub open spec fn signed(x: u32) -> int {
    if x < 0x8000_0000 {
        x as int
    } else {
        x - 0x1_0000_0000
    }
}

pub open spec fn sext8(b: u8) -> u32 {
    if b < 0x80 {
        b as u32
    } else {
        (b + 0xFFFF_FF00) as u32
    }
}

pub open spec fn sext16(h: u16) -> u32 {
    if h < 0x8000 {
        h as u32
    } else {
        (h + 0xFFFF_0000) as u32
    }
}

/// Arithmetic right shift: the sign bit fills in from the left.
pub open spec fn sra(x: u32, s: u32) -> u32 {
    if x < 0x8000_0000 {
        x >> s
    } else {
        !((!x) >> s)
    }
}

pub open spec fn flag(b: bool) -> u32 {
    if b {
        1
    } else {
        0
    }
}

pub open spec fn abs(a: int) -> int {
    if a < 0 {
        -a
    } else {
        a
    }
}

/// Quotient rounded toward zero.
pub open spec fn tquot(a: int, b: int) -> int {
    if (a < 0) != (b < 0) {
        -(abs(a) / abs(b))
    } else {
        abs(a) / abs(b)
    }
}

/// Remainder with the sign of the dividend.
pub open spec fn trem(a: int, b: int) -> int {
    if a < 0 {
        -(abs(a) % abs(b))
    } else {
        abs(a) % abs(b)
    }
}

/// The registers that a callee must restore, in order: `$sp`, `$fp`, `$s0` .. `$s7`.
pub open spec fn saved_id(k: int) -> Reg {
    if k == 0 {
        REG_SP
    } else if k == 1 {
        REG_FP
    } else {
        (k + 14) as Reg
    }
}

pub open spec fn saved_regs(regs: Seq<u32>) -> Seq<u32> {
    Seq::new(10, |k: int| regs[saved_id(k) as int])
}

/// `k` is the first position where `a` and `b` differ.
pub open spec fn first_diff_at(a: Seq<u32>, b: Seq<u32>, k: int) -> bool {
    &&& 0 <= k < a.len()
    &&& a[k] != b[k]
    &&& forall|j: int| 0 <= j < k ==> a[j] == b[j]
}

pub open spec fn first_diff(a: Seq<u32>, b: Seq<u32>) -> int {
    choose|k: int| first_diff_at(a, b, k)
}

/// The state of the machine as plain values.
pub struct CpuView {
    pub regs: Seq<u32>,
    pub pc: u32,
    pub hi: u32,
    pub lo: u32,
    pub mem: MemView,
    pub frames: Seq<Seq<u32>>,
    pub last: Option<(u32, u32)>,
}

pub open spec fn put(s: CpuView, r: Reg, v: u32) -> CpuView {
    CpuView { regs: s.regs.update(r as int, v), ..s }
}

pub open spec fn advance(s: CpuView) -> CpuView {
    CpuView { pc: wrap32(s.pc + 4), ..s }
}

pub open spec fn goto(s: CpuView, target: u32) -> CpuView {
    CpuView { pc: target, ..s }
}

/// The effective address `R[rs] + imm`.
pub open spec fn ea(s: CpuView, rs: Reg, imm: i32) -> u32 {
    wrap32(s.regs[rs as int] + imm)
}

pub open spec fn accessed(s: CpuView, a: u32, size: u32) -> CpuView {
    CpuView { last: Some((a, size)), ..s }
}

pub open spec fn with_mem(s: CpuView, m: MemView) -> CpuView {
    CpuView { mem: m, ..s }
}

/// Write `v` to `rd`, then move on to the next instruction.
pub open spec fn alu(s: CpuView, rd: Reg, v: u32) -> Result<CpuView, EmuError> {
    Ok(advance(put(s, rd, v)))
}

/// Jump to `label` when `taken`, else move on.
pub open spec fn branch(s: CpuView, taken: bool, label: Vec<char>, syms: Symbols) -> Result<
    CpuView,
    EmuError,
> {
    if taken {
        match symbol_lookup(syms, label@) {
            Some(t) => Ok(goto(s, t)),
            None => Err(EmuError::UndefinedLabel(label)),
        }
    } else {
        Ok(advance(s))
    }
}

/// The effect of running `insn` on `s`, in a program with symbols `syms`
/// and `n` instructions: the next state, or the error that leaves `s` as it was.
pub open spec fn step_result(s: CpuView, insn: CoreInstruction, syms: Symbols, n: nat) -> Result<
    CpuView,
    EmuError,
> {
    let r = s.regs;
    match insn {
        CoreInstruction::Add { rd, rs, rt } => alu(s, rd, wrap32(r[rs as int] + r[rt as int])),
        CoreInstruction::Addu { rd, rs, rt } => alu(s, rd, wrap32(r[rs as int] + r[rt as int])),
        CoreInstruction::Addi { rt, rs, imm } => alu(s, rt, wrap32(r[rs as int] + imm)),
        CoreInstruction::Addiu { rt, rs, imm } => alu(s, rt, wrap32(r[rs as int] + imm)),
        CoreInstruction::Sub { rd, rs, rt } => alu(s, rd, wrap32(r[rs as int] - r[rt as int])),
        CoreInstruction::Subu { rd, rs, rt } => alu(s, rd, wrap32(r[rs as int] - r[rt as int])),
        CoreInstruction::And { rd, rs, rt } => alu(s, rd, r[rs as int] & r[rt as int]),
        CoreInstruction::Andi { rt, rs, imm } => alu(s, rt, r[rs as int] & imm),
        CoreInstruction::Or { rd, rs, rt } => alu(s, rd, r[rs as int] | r[rt as int]),
        CoreInstruction::Ori { rt, rs, imm } => alu(s, rt, r[rs as int] | imm),
        CoreInstruction::Xor { rd, rs, rt } => alu(s, rd, r[rs as int] ^ r[rt as int]),
        CoreInstruction::Xori { rt, rs, imm } => alu(s, rt, r[rs as int] ^ imm),
        CoreInstruction::Nor { rd, rs, rt } => alu(s, rd, !(r[rs as int] | r[rt as int])),
        CoreInstruction::Sll { rd, rt, sa } => alu(s, rd, r[rt as int] << (sa & 31)),
        CoreInstruction::Srl { rd, rt, sa } => alu(s, rd, r[rt as int] >> (sa & 31)),
        CoreInstruction::Sra { rd, rt, sa } => alu(s, rd, sra(r[rt as int], sa & 31)),
        CoreInstruction::Slt { rd, rs, rt } => alu(
            s,
            rd,
            flag(signed(r[rs as int]) < signed(r[rt as int])),
        ),
        CoreInstruction::Sltu { rd, rs, rt } => alu(s, rd, flag(r[rs as int] < r[rt as int])),
        CoreInstruction::Slti { rt, rs, imm } => alu(s, rt, flag(signed(r[rs as int]) < imm)),
        CoreInstruction::Sltiu { rt, rs, imm } => alu(s, rt, flag(r[rs as int] < imm)),
        CoreInstruction::Lui { rt, imm } => alu(s, rt, imm << 16),
        CoreInstruction::Lw { rt, rs, imm } => {
            let a = ea(s, rs, imm);
            if a % 4 != 0 {
                Err(EmuError::UnalignedAccess(a))
            } else {
                alu(accessed(s, a, 4), rt, s.mem.load_word(a))
            }
        },
        CoreInstruction::Lh { rt, rs, imm } => {
            let a = ea(s, rs, imm);
            if a % 2 != 0 {
                Err(EmuError::UnalignedAccess(a))
            } else {
                alu(accessed(s, a, 2), rt, sext16(s.mem.load_half(a)))
            }
        },
        CoreInstruction::Lb { rt, rs, imm } => {
            let a = ea(s, rs, imm);
            alu(accessed(s, a, 1), rt, sext8(s.mem.load_byte(a)))
        },
        CoreInstruction::Sw { rt, rs, imm } => {
            let a = ea(s, rs, imm);
            if a % 4 != 0 {
                Err(EmuError::UnalignedAccess(a))
            } else {
                Ok(advance(accessed(with_mem(s, s.mem.store_word(a, r[rt as int])), a, 4)))
            }
        },
        CoreInstruction::Sh { rt, rs, imm } => {
            let a = ea(s, rs, imm);
            if a % 2 != 0 {
                Err(EmuError::UnalignedAccess(a))
            } else {
                Ok(
                    advance(
                        accessed(
                            with_mem(s, s.mem.store_half(a, (r[rt as int] & 0xFFFF) as u16)),
                            a,
                            2,
                        ),
                    ),
                )
            }
        },
        CoreInstruction::Sb { rt, rs, imm } => {
            let a = ea(s, rs, imm);
            Ok(
                advance(
                    accessed(with_mem(s, s.mem.store_byte(a, (r[rt as int] & 0xFF) as u8)), a, 1),
                ),
            )
        },
        CoreInstruction::J { label } => branch(s, true, label, syms),
        CoreInstruction::Jal { label } => match symbol_lookup(syms, label@) {
            Some(t) => Ok(
                CpuView {
                    regs: r.update(REG_RA as int, wrap32(s.pc + 4)),
                    pc: t,
                    frames: s.frames.push(saved_regs(r)),
                    ..s
                },
            ),
            None => Err(EmuError::UndefinedLabel(label)),
        },
        CoreInstruction::Jr { rs } => {
            let t = r[rs as int];
            let checked = rs == REG_RA && s.frames.len() > 0;
            if checked && s.frames.last() != saved_regs(r) {
                Err(
                    EmuError::CallingConventionViolation(
                        saved_id(first_diff(s.frames.last(), saved_regs(r))),
                    ),
                )
            } else if t % 4 != 0 {
                Err(EmuError::UnalignedAccess(t))
            } else if pc_index(t, n) is None {
                Err(EmuError::InvalidJump(t))
            } else if checked {
                Ok(CpuView { pc: t, frames: s.frames.drop_last(), ..s })
            } else {
                Ok(goto(s, t))
            }
        },
        CoreInstruction::Beq { rs, rt, label } => branch(s, r[rs as int] == r[rt as int], label, syms),
        CoreInstruction::Bne { rs, rt, label } => branch(s, r[rs as int] != r[rt as int], label, syms),
        CoreInstruction::Mult { rs, rt } => {
            let p = (signed(r[rs as int]) * signed(r[rt as int])) % 0x1_0000_0000_0000_0000;
            Ok(advance(CpuView { lo: (p % 0x1_0000_0000) as u32, hi: (p / 0x1_0000_0000) as u32, ..s }))
        },
        CoreInstruction::Multu { rs, rt } => {
            let p = r[rs as int] as int * r[rt as int] as int;
            Ok(advance(CpuView { lo: (p % 0x1_0000_0000) as u32, hi: (p / 0x1_0000_0000) as u32, ..s }))
        },
        CoreInstruction::Div { rs, rt } => {
            if r[rt as int] == 0 {
                Err(EmuError::DivideByZero)
            } else {
                let a = signed(r[rs as int]);
                let b = signed(r[rt as int]);
                Ok(advance(CpuView { lo: wrap32(tquot(a, b)), hi: wrap32(trem(a, b)), ..s }))
            }
        },
        CoreInstruction::Divu { rs, rt } => {
            if r[rt as int] == 0 {
                Err(EmuError::DivideByZero)
            } else {
                Ok(
                    advance(
                        CpuView {
                            lo: (r[rs as int] / r[rt as int]) as u32,
                            hi: (r[rs as int] % r[rt as int]) as u32,
                            ..s
                        },
                    ),
                )
            }
        },
        CoreInstruction::Mfhi { rd } => alu(s, rd, s.hi),
        CoreInstruction::Mflo { rd } => alu(s, rd, s.lo),
    }
}


/// The registers of a fresh machine: all zero but `$gp`, `$sp` and `$fp`.
pub open spec fn initial_regs() -> Seq<u32> {
    Seq::new(
        NUM_REGS as nat,
        |i: int|
            if i == REG_GP as int {
                DEFAULT_STATIC_DATA_BASE_ADDRESS
            } else if i == REG_SP as int {
                DEFAULT_STACK_POINTER
            } else if i == REG_FP as int {
                DEFAULT_STACK_BASE_ADDRESS
            } else {
                0
            },
    )
}

pub open spec fn cleared(s: CpuView) -> CpuView {
    CpuView { last: None, ..s }
}

/// A loaded program as plain values; no program reads as an empty one.
pub struct ProgView {
    pub insns: Seq<CoreInstruction>,
    pub syms: Symbols,
    pub lines: Seq<usize>,
}

pub open spec fn prog_view(p: Option<Program>) -> ProgView {
    match p {
        Some(p) => ProgView { insns: p.instructions@, syms: p.symbols(), lines: p.line_numbers@ },
        None => ProgView { insns: Seq::empty(), syms: Seq::empty(), lines: Seq::empty() },
    }
}

/// The effect of one step of `p` from `s`: the access record is cleared, then
/// the instruction at `pc` runs; a `pc` outside the text segment ends the run.
pub open spec fn next_result(s: CpuView, p: ProgView) -> Result<CpuView, EmuError> {
    match pc_index(s.pc, p.insns.len()) {
        None => Err(EmuError::Termination),
        Some(i) => step_result(cleared(s), p.insns[i as int], p.syms, p.insns.len()),
    }
}

/// The source line (0-based) of the instruction at `pc`, if any.
pub open spec fn line_at(p: ProgView, pc: u32) -> Option<int> {
    match pc_index(pc, p.insns.len()) {
        Some(i) => if i < p.lines.len() { Some(p.lines[i as int] - 1) } else { None },
        None => None,
    }
}

pub open spec fn at_breakpoint(p: ProgView, pc: u32, bps: Seq<usize>) -> bool {
    match line_at(p, pc) {
        Some(l) => l >= 0 && bps.contains(l as usize),
        None => false,
    }
}

/// Where `run` ends from `s` after `count` of at most `max` steps: the final
/// state and the outcome (`Ok` on termination).
pub open spec fn run_from(s: CpuView, p: ProgView, bps: Seq<usize>, max: nat, count: nat) -> (
    CpuView,
    Result<(), EmuError>,
)
    decreases max - count,
{
    if count >= max {
        (s, Err(EmuError::ExecutionLimitExceeded(count as u64)))
    } else {
        match next_result(s, p) {
            Err(EmuError::Termination) => (cleared(s), Ok(())),
            Err(e) => (cleared(s), Err(e)),
            Ok(s2) => if at_breakpoint(p, s2.pc, bps) {
                (s2, Err(EmuError::Breakpoint))
            } else {
                run_from(s2, p, bps, max, count + 1)
            },
        }
    }
}

/// What a snapshot shows: registers, the last memory access and the devices.
pub struct Snapshot {
    pub registers: Vec<u32>,
    pub last_mem_access: Option<(u32, u32)>,
    pub devices: std::collections::HashMap<u32, crate::mmio::DeviceState>,
}

/// An instruction runs only from a word-aligned address inside the text segment.
pub proof fn lemma_executed_pc_in_text(s: CpuView, p: ProgView)
    requires
        !(next_result(s, p) matches Err(EmuError::Termination)),
    ensures
        s.pc % 4 == 0,
        DEFAULT_TEXT_BASE_ADDRESS <= s.pc,
        s.pc < DEFAULT_TEXT_BASE_ADDRESS + 4 * p.insns.len(),
{
}

/// Whether `insn` changes the flow of control in state `r`: a jump, or a
/// branch whose condition holds.
pub open spec fn transfers_control(insn: CoreInstruction, r: Seq<u32>) -> bool {
    match insn {
        CoreInstruction::J { .. } | CoreInstruction::Jal { .. } | CoreInstruction::Jr { .. } => true,
        CoreInstruction::Beq { rs, rt, .. } => r[rs as int] == r[rt as int],
        CoreInstruction::Bne { rs, rt, .. } => r[rs as int] != r[rt as int],
        _ => false,
    }
}

/// Every instruction that does not jump or take a branch moves `pc` on by 4.
pub proof fn lemma_stride(s: CpuView, insn: CoreInstruction, syms: Symbols, n: nat)
    requires
        !transfers_control(insn, s.regs),
        step_result(s, insn, syms, n) is Ok,
    ensures
        step_result(s, insn, syms, n)->Ok_0.pc == wrap32(s.pc + 4),
{
}

/// On `jr $ra` after a `jal`, a callee that left `$sp`, `$fp` or an `$s`
/// register changed is caught, and one that restored them all is not.
pub proof fn lemma_calling_convention(s: CpuView, syms: Symbols, n: nat)
    requires
        s.frames.len() > 0,
    ensures
        s.frames.last() != saved_regs(s.regs) ==> step_result(
            s,
            CoreInstruction::Jr { rs: REG_RA },
            syms,
            n,
        ) matches Err(EmuError::CallingConventionViolation(_)),
        s.frames.last() == saved_regs(s.regs) ==> !(step_result(
            s,
            CoreInstruction::Jr { rs: REG_RA },
            syms,
            n,
        ) matches Err(EmuError::CallingConventionViolation(_))),
{
}

/// `run` reports the instruction limit only after exactly `max` instructions.
pub proof fn lemma_limit_exact(s: CpuView, p: ProgView, bps: Seq<usize>, max: nat, count: nat)
    requires
        count <= max <= u64::MAX,
    ensures
        run_from(s, p, bps, max, count).1 matches Err(EmuError::ExecutionLimitExceeded(c)) ==> c
            == max,
    decreases max - count,
{
    if count < max {
        match next_result(s, p) {
            Ok(s2) => {
                if !at_breakpoint(p, s2.pc, bps) {
                    lemma_limit_exact(s2, p, bps, max, count + 1);
                }
            },
            Err(_) => {
                let i = pc_index(s.pc, p.insns.len());
                if i is Some {
                    lemma_step_never_limit(cleared(s), p.insns[i->0 as int], p.syms, p.insns.len());
                }
            },
        }
    }
}

proof fn lemma_step_never_limit(s: CpuView, insn: CoreInstruction, syms: Symbols, n: nat)
    ensures
        !(step_result(s, insn, syms, n) matches Err(EmuError::ExecutionLimitExceeded(_))),
        !(step_result(s, insn, syms, n) matches Err(EmuError::Termination)),
{
}

/// `v` reduced to 32 bits.
fn wrap(v: i64) -> (r: u32)
    requires
        -0x1_0000_0000 <= v < 0x2_0000_0000,
    ensures
        r == wrap32(v as int),
{
    if v < 0 {
        (v + 0x1_0000_0000) as u32
    } else if v >= 0x1_0000_0000 {
        (v - 0x1_0000_0000) as u32
    } else {
        v as u32
    }
}

fn to_signed(x: u32) -> (r: i64)
    ensures
        r == signed(x),
{
    if x < 0x8000_0000 {
        x as i64
    } else {
        x as i64 - 0x1_0000_0000
    }
}

/// The first position where `a` and `b` differ, if any.
fn first_mismatch(a: &Vec<u32>, b: &Vec<u32>) -> (r: Option<usize>)
    requires
        a@.len() == b@.len(),
    ensures
        match r {
            Some(k) => first_diff_at(a@, b@, k as int) && first_diff(a@, b@) == k,
            None => a@ == b@,
        },
{
    let mut k: usize = 0;
    while k < a.len()
        invariant
            a@.len() == b@.len(),
            k <= a@.len(),
            forall|j: int| 0 <= j < k ==> a@[j] == b@[j],
        decreases a@.len() - k,
    {
        if a[k] != b[k] {
            proof {
                assert(first_diff_at(a@, b@, k as int));
                let c = first_diff(a@, b@);
                if c < k {
                    assert(a@[c] == b@[c]);
                } else if c > k {
                    assert(a@[k as int] == b@[k as int]);
                }
            }
            return Some(k);
        }
        k += 1;
    }
    assert(a@ =~= b@);
    None
}

pub const DEFAULT_MAX_INSTRUCTIONS: u64 = 10_000;

/// The processor: register file, special registers, memory, the loaded
/// program, breakpoints and the stack of registers saved at each `jal`.
pub struct CPU {
    pub registers: Vec<u32>,
    pub pc: u32,
    pub lo: u32,
    pub hi: u32,
    pub program: Option<Program>,
    pub memory: Memory,
    pub breakpoints: Vec<usize>,
    pub frames: Vec<Vec<u32>>,
    pub last_mem_access: Option<(u32, u32)>,
    pub max_instructions: u64,
}

impl View for CPU {
    type V = CpuView;

    open spec fn view(&self) -> CpuView {
        CpuView {
            regs: self.registers@,
            pc: self.pc,
            hi: self.hi,
            lo: self.lo,
            mem: self.memory@,
            frames: self.frames@.map_values(|f: Vec<u32>| f@),
            last: self.last_mem_access,
        }
    }
}

impl CPU {
    pub open spec fn wf(&self) -> bool {
        &&& self.registers@.len() == NUM_REGS
        &&& self.memory.wf()
        &&& forall|i: int| 0 <= i < self.frames@.len() ==> #[trigger] self.frames@[i]@.len() == 10
        &&& self.program matches Some(p) ==> p.wf()
    }

    fn create_register_map() -> (r: Vec<u32>)
        ensures
            r@ == initial_regs(),
    {
        let mut registers: Vec<u32> = Vec::new();
        let mut i: usize = 0;
        while i < NUM_REGS
            invariant
                i <= NUM_REGS,
                registers@ == initial_regs().subrange(0, i as int),
            decreases NUM_REGS - i,
        {
            let v = if i == REG_GP as usize {
                DEFAULT_STATIC_DATA_BASE_ADDRESS
            } else if i == REG_SP as usize {
                DEFAULT_STACK_POINTER
            } else if i == REG_FP as usize {
                DEFAULT_STACK_BASE_ADDRESS
            } else {
                0
            };
            registers.push(v);
            proof {
                assert(registers@ =~= initial_regs().subrange(0, i + 1));
            }
            i += 1;
        }
        assert(registers@ =~= initial_regs());
        registers
    }

    /// A fresh machine with no program loaded.
    pub fn new() -> (r: Self)
        ensures
            r.wf(),
            r@.regs == initial_regs(),
            r@.pc == DEFAULT_TEXT_BASE_ADDRESS,
            r@.hi == 0 && r@.lo == 0,
            r@.frames.len() == 0,
            r@.last is None,
            r@.mem == Memory::new_view(),
            forall|a: u32| #[trigger] r@.mem.ram[a] == 0,
            r.program is None,
            r.breakpoints@.len() == 0,
            r.max_instructions == DEFAULT_MAX_INSTRUCTIONS,
    {
        CPU {
            registers: Self::create_register_map(),
            pc: DEFAULT_TEXT_BASE_ADDRESS,
            lo: 0,
            hi: 0,
            program: None,
            memory: Memory::new(),
            breakpoints: Vec::new(),
            frames: Vec::new(),
            last_mem_access: None,
            max_instructions: DEFAULT_MAX_INSTRUCTIONS,
        }
    }

    pub fn get_lo(&self) -> (r: u32)
        ensures
            r == self.lo,
    {
        self.lo
    }

    pub fn get_hi(&self) -> (r: u32)
        ensures
            r == self.hi,
    {
        self.hi
    }

    /// The value of the register named `name`; 0 for a name that is not a register.
    pub fn get_reg(&self, name: &str) -> (r: u32)
        requires
            self.wf(),
        ensures
            match reg_of_name(name@) {
                Some(i) => r == self@.regs[i as int],
                None => r == 0,
            },
    {
        let chars = chars_of(name);
        match register_id(chars.as_slice()) {
            Some(i) => self.registers[i as usize],
            None => 0,
        }
    }

    /// Sets the register named `name`; a name that is not a register changes nothing.
    pub fn set_reg(&mut self, name: &str, value: u32)
        requires
            old(self).wf(),
        ensures
            final(self).wf(),
            final(self).program == old(self).program,
            final(self).breakpoints == old(self).breakpoints,
            final(self).max_instructions == old(self).max_instructions,
            match reg_of_name(name@) {
                Some(i) => final(self)@ == put(old(self)@, i, value),
                None => final(self)@ == old(self)@,
            },
    {
        let chars = chars_of(name);
        match register_id(chars.as_slice()) {
            Some(i) => self.set(i, value),
            None => {},
        }
    }

    /// Installs `program` and points `pc` at its first instruction.
    pub fn load_program(&mut self, program: Program)
        requires
            old(self).wf(),
            program.wf(),
        ensures
            final(self).wf(),
            final(self).program == Some(program),
            final(self)@ == (CpuView { pc: DEFAULT_TEXT_BASE_ADDRESS, ..old(self)@ }),
            final(self).breakpoints == old(self).breakpoints,
            final(self).max_instructions == old(self).max_instructions,
    {
        self.program = Some(program);
        self.pc = DEFAULT_TEXT_BASE_ADDRESS;
    }

    pub fn get_program(&self) -> (r: Option<&Program>)
        ensures
            match r {
                Some(p) => self.program == Some(*p),
                None => self.program is None,
            },
    {
        self.program.as_ref()
    }

    /// Runs `insn` against the loaded program (an empty one if none is loaded).
    pub fn execute(&mut self, insn: &CoreInstruction) -> (r: Result<(), EmuError>)
        requires
            old(self).wf(),
            insn.regs_valid(),
        ensures
            final(self).wf(),
            final(self).program == old(self).program,
            final(self).breakpoints == old(self).breakpoints,
            final(self).max_instructions == old(self).max_instructions,
            ({
                let (syms, n) = match old(self).program {
                    Some(p) => (p.symbols(), p.instructions@.len()),
                    None => (Seq::empty(), 0),
                };
                match step_result(old(self)@, *insn, syms, n) {
                    Ok(s) => r is Ok && final(self)@ == s,
                    Err(e) => r is Err && same_error(r->Err_0, e) && final(self)@ == old(self)@,
                }
            }),
    {
        let taken = self.program.take();
        match taken {
            Some(p) => {
                let r = self.execute_in(insn, &p);
                self.program = Some(p);
                r
            },
            None => {
                let empty = Program { instructions: Vec::new(), labels: Vec::new(), line_numbers: Vec::new() };
                proof {
                    assert(empty.symbols() =~= Seq::<(Seq<char>, u32)>::empty());
                }
                self.execute_in(insn, &empty)
            },
        }
    }

    /// Resets the machine, then assembles `source` into it and installs the
    /// program; on an error no program is installed.
    pub fn load_source(&mut self, source: &str) -> (r: Result<(), EmuError>)
        requires
            source@.len() < usize::MAX,
        ensures
            final(self).wf(),
            final(self)@.regs == initial_regs(),
            final(self)@.pc == DEFAULT_TEXT_BASE_ADDRESS,
            final(self)@.frames.len() == 0,
            final(self).breakpoints@.len() == 0,
            match r {
                Ok(()) => final(self).program is Some,
                Err(_) => final(self).program is None,
            },
            ({
                let fresh = Memory::new_view();
                match assembled(source@, fresh) {
                    Ok((insns, syms, lines, mem)) => r is Ok && (final(self).program matches Some(p) && core_views(p.instructions@) == insns
                        && p.symbols() == syms && p.line_numbers@ == lines) && final(self)@.mem == mem,
                    Err(ParseError::At(e)) => r == Err::<(), EmuError>(e),
                    Err(ParseError::Undefined(l)) => r is Err && (r->Err_0 matches EmuError::UndefinedLabel(x) && x@ == l),
                }
            }),
    {
        self.reset();
        match Program::parse(source, &mut self.memory) {
            Ok(p) => {
                self.load_program(p);
                Ok(())
            },
            Err(e) => Err(e),
        }
    }

    /// Assembles `source` into this machine's memory, loads it and runs it.
    pub fn run_input(&mut self, source: &str) -> (r: Result<(), EmuError>)
        requires
            old(self).wf(),
            source@.len() < usize::MAX,
        ensures
            final(self).wf(),
            match assembled(source@, old(self)@.mem) {
                Ok((insns, syms, lines, mem)) => (final(self).program matches Some(p) && core_views(p.instructions@) == insns
                    && p.symbols() == syms && p.line_numbers@ == lines) && ({
                    let (s, res) = run_from(
                        CpuView { pc: DEFAULT_TEXT_BASE_ADDRESS, mem, ..old(self)@ },
                        prog_view(final(self).program),
                        old(self).breakpoints@,
                        old(self).max_instructions as nat,
                        0,
                    );
                    &&& final(self)@ == s
                    &&& match res {
                        Ok(()) => r is Ok,
                        Err(e) => r is Err && same_error(r->Err_0, e),
                    }
                }),
                Err(ParseError::At(e)) => r == Err::<(), EmuError>(e),
                Err(ParseError::Undefined(l)) => r is Err && (r->Err_0 matches EmuError::UndefinedLabel(x) && x@ == l),
            },
    {
        let program = match Program::parse(source, &mut self.memory) {
            Ok(p) => p,
            Err(e) => return Err(e),
        };
        self.load_program(program);
        self.run()
    }

    /// Executes the instruction at `pc`.
    pub fn next(&mut self) -> (r: Result<(), EmuError>)
        requires
            old(self).wf(),
        ensures
            final(self).wf(),
            final(self).program == old(self).program,
            final(self).breakpoints == old(self).breakpoints,
            final(self).max_instructions == old(self).max_instructions,
            match next_result(old(self)@, prog_view(old(self).program)) {
                Ok(s) => r is Ok && final(self)@ == s,
                Err(e) => r is Err && same_error(r->Err_0, e) && final(self)@ == cleared(old(self)@),
            },
    {
        self.last_mem_access = None;
        let taken = self.program.take();
        match taken {
            None => Err(EmuError::Termination),
            Some(p) => {
                let r = match p.pc_to_index(self.pc) {
                    None => Err(EmuError::Termination),
                    Some(i) => self.execute_in(&p.instructions[i], &p),
                };
                self.program = Some(p);
                r
            },
        }
    }

    fn breakpoint_set(&self, line: usize) -> (r: bool)
        ensures
            r == self.breakpoints@.contains(line),
    {
        let mut i: usize = 0;
        while i < self.breakpoints.len()
            invariant
                i <= self.breakpoints@.len(),
                forall|j: int| 0 <= j < i ==> self.breakpoints@[j] != line,
            decreases self.breakpoints@.len() - i,
        {
            if self.breakpoints[i] == line {
                return true;
            }
            i += 1;
        }
        false
    }

    fn at_breakpoint(&self) -> (r: bool)
        requires
            self.wf(),
        ensures
            r == at_breakpoint(prog_view(self.program), self.pc, self.breakpoints@),
    {
        match &self.program {
            None => false,
            Some(p) => match p.pc_to_index(self.pc) {
                Some(i) => {
                    let line = p.line_numbers[i];
                    if line >= 1 {
                        self.breakpoint_set(line - 1)
                    } else {
                        false
                    }
                },
                None => false,
            },
        }
    }

    /// Runs until the program leaves its text segment (`Ok`), reaches a
    /// breakpoint line, fails, or has run `max_instructions` instructions.
    pub fn run(&mut self) -> (r: Result<(), EmuError>)
        requires
            old(self).wf(),
        ensures
            final(self).wf(),
            final(self).program == old(self).program,
            final(self).breakpoints == old(self).breakpoints,
            ({
                let (s, res) = run_from(
                    old(self)@,
                    prog_view(old(self).program),
                    old(self).breakpoints@,
                    old(self).max_instructions as nat,
                    0,
                );
                &&& final(self)@ == s
                &&& match res {
                    Ok(()) => r is Ok,
                    Err(e) => r is Err && same_error(r->Err_0, e),
                }
            }),
    {
        let ghost p = prog_view(self.program);
        let ghost bps = self.breakpoints@;
        let ghost max = self.max_instructions as nat;
        let mut count: u64 = 0;
        loop
            invariant
                self.wf(),
                self.program == old(self).program,
                self.breakpoints == old(self).breakpoints,
                self.max_instructions == old(self).max_instructions,
                p == prog_view(self.program),
                bps == self.breakpoints@,
                max == self.max_instructions as nat,
                count <= max,
                run_from(self@, p, bps, max, count as nat) == run_from(old(self)@, p, bps, max, 0),
            decreases max - count,
        {
            if count >= self.max_instructions {
                return Err(EmuError::ExecutionLimitExceeded(count));
            }
            match self.next() {
                Ok(()) => {
                    count += 1;
                    if self.at_breakpoint() {
                        return Err(EmuError::Breakpoint);
                    }
                },
                Err(EmuError::Termination) => {
                    return Ok(());
                },
                Err(e) => {
                    return Err(e);
                },
            }
        }
    }

    /// The 0-based source line of the next instruction, or -1 when there is none.
    pub fn get_current_line(&self) -> (r: i32)
        requires
            self.wf(),
        ensures
            match line_at(prog_view(self.program), self.pc) {
                Some(l) => if l <= i32::MAX { r == l } else { r == -1 },
                None => r == -1,
            },
    {
        match &self.program {
            None => -1,
            Some(p) => match p.pc_to_index(self.pc) {
                Some(i) => {
                    let line = p.line_numbers[i];
                    if line == 0 {
                        -1
                    } else if line - 1 <= i32::MAX as usize {
                        (line - 1) as i32
                    } else {
                        -1
                    }
                },
                None => -1,
            },
        }
    }

    /// Replaces the breakpoint set by `lines` (0-based source lines).
    pub fn set_breakpoints(&mut self, lines: Vec<usize>)
        requires
            old(self).wf(),
        ensures
            final(self).wf(),
            final(self)@ == old(self)@,
            final(self).program == old(self).program,
            final(self).breakpoints@ == lines@,
            final(self).max_instructions == old(self).max_instructions,
    {
        self.breakpoints = lines;
    }

    /// Back to a fresh machine: initial registers, fresh memory, no program,
    /// no breakpoints, no saved frames.
    pub fn reset(&mut self)
        ensures
            final(self).wf(),
            final(self)@.regs == initial_regs(),
            final(self)@.pc == DEFAULT_TEXT_BASE_ADDRESS,
            final(self)@.hi == 0 && final(self)@.lo == 0,
            final(self)@.frames.len() == 0,
            final(self)@.last is None,
            final(self)@.mem == Memory::new_view(),
            forall|a: u32| #[trigger] final(self)@.mem.ram[a] == 0,
            final(self).program is None,
            final(self).breakpoints@.len() == 0,
            final(self).max_instructions == old(self).max_instructions,
    {
        self.registers = Self::create_register_map();
        self.memory = Memory::new();
        self.pc = DEFAULT_TEXT_BASE_ADDRESS;
        self.lo = 0;
        self.hi = 0;
        self.program = None;
        self.frames = Vec::new();
        self.breakpoints = Vec::new();
        self.last_mem_access = None;
    }

    /// Registers, last memory access and device states.
    pub fn snapshot(&self) -> (r: Snapshot)
        requires
            self.wf(),
        ensures
            r.registers@ == self@.regs,
            r.last_mem_access == self@.last,
            r.devices@ == crate::mmio::bus_states(self@.mem.devices),
    {
        let mut registers: Vec<u32> = Vec::new();
        let mut i: usize = 0;
        while i < self.registers.len()
            invariant
                i <= self.registers@.len(),
                registers@ == self.registers@.subrange(0, i as int),
            decreases self.registers@.len() - i,
        {
            registers.push(self.registers[i]);
            i += 1;
        }
        assert(registers@ =~= self.registers@);
        Snapshot {
            registers,
            last_mem_access: self.last_mem_access,
            devices: self.memory.bus.snapshot(),
        }
    }

    /// The callee-saved registers, in the order of `saved_regs`.
    fn saved(&self) -> (r: Vec<u32>)
        requires
            self.registers@.len() == NUM_REGS,
        ensures
            r@ == saved_regs(self.registers@),
    {
        let r = &self.registers;
        let v = vec![r[29], r[30], r[16], r[17], r[18], r[19], r[20], r[21], r[22], r[23]];
        assert(v@ =~= saved_regs(self.registers@));
        v
    }

    fn set(&mut self, rd: Reg, v: u32)
        requires
            old(self).wf(),
            rd < 32,
        ensures
            final(self).wf(),
            final(self)@ == put(old(self)@, rd, v),
            final(self).program == old(self).program,
            final(self).breakpoints == old(self).breakpoints,
            final(self).max_instructions == old(self).max_instructions,
    {
        self.registers.set(rd as usize, v);
    }

    fn next_pc(&mut self)
        requires
            old(self).wf(),
        ensures
            final(self).wf(),
            final(self)@ == advance(old(self)@),
            final(self).program == old(self).program,
            final(self).breakpoints == old(self).breakpoints,
            final(self).max_instructions == old(self).max_instructions,
    {
        self.pc = wrap(self.pc as i64 + 4);
    }

    /// Runs `insn` against the symbols and text segment of `prog`.
    pub fn execute_in(&mut self, insn: &CoreInstruction, prog: &Program) -> (r: Result<(), EmuError>)
        requires
            old(self).wf(),
            insn.regs_valid(),
        ensures
            final(self).wf(),
            final(self).program == old(self).program,
            final(self).breakpoints == old(self).breakpoints,
            final(self).max_instructions == old(self).max_instructions,
            match step_result(old(self)@, *insn, prog.symbols(), prog.instructions@.len()) {
                Ok(s) => r is Ok && final(self)@ == s,
                Err(e) => r is Err && same_error(r->Err_0, e) && final(self)@ == old(self)@,
            },
    {
        match insn {
            CoreInstruction::Add { rd, rs, rt } | CoreInstruction::Addu { rd, rs, rt } => {
                let v = wrap(self.registers[*rs as usize] as i64 + self.registers[*rt as usize] as i64);
                self.set(*rd, v);
                self.next_pc();
                Ok(())
            },
            CoreInstruction::Addi { rt, rs, imm } => {
                let v = wrap(self.registers[*rs as usize] as i64 + *imm as i64);
                self.set(*rt, v);
                self.next_pc();
                Ok(())
            },
            CoreInstruction::Addiu { rt, rs, imm } => {
                let v = wrap(self.registers[*rs as usize] as i64 + *imm as i64);
                self.set(*rt, v);
                self.next_pc();
                Ok(())
            },
            CoreInstruction::Sub { rd, rs, rt } | CoreInstruction::Subu { rd, rs, rt } => {
                let v = wrap(self.registers[*rs as usize] as i64 - self.registers[*rt as usize] as i64);
                self.set(*rd, v);
                self.next_pc();
                Ok(())
            },
            CoreInstruction::And { rd, rs, rt } => {
                let v = self.registers[*rs as usize] & self.registers[*rt as usize];
                self.set(*rd, v);
                self.next_pc();
                Ok(())
            },
            CoreInstruction::Andi { rt, rs, imm } => {
                let v = self.registers[*rs as usize] & *imm;
                self.set(*rt, v);
                self.next_pc();
                Ok(())
            },
            CoreInstruction::Or { rd, rs, rt } => {
                let v = self.registers[*rs as usize] | self.registers[*rt as usize];
                self.set(*rd, v);
                self.next_pc();
                Ok(())
            },
            CoreInstruction::Ori { rt, rs, imm } => {
                let v = self.registers[*rs as usize] | *imm;
                self.set(*rt, v);
                self.next_pc();
                Ok(())
            },
            CoreInstruction::Xor { rd, rs, rt } => {
                let v = self.registers[*rs as usize] ^ self.registers[*rt as usize];
                self.set(*rd, v);
                self.next_pc();
                Ok(())
            },
            CoreInstruction::Xori { rt, rs, imm } => {
                let v = self.registers[*rs as usize] ^ *imm;
                self.set(*rt, v);
                self.next_pc();
                Ok(())
            },
            CoreInstruction::Nor { rd, rs, rt } => {
                let v = !(self.registers[*rs as usize] | self.registers[*rt as usize]);
                self.set(*rd, v);
                self.next_pc();
                Ok(())
            },
            CoreInstruction::Sll { rd, rt, sa } => {
                let s = *sa & 31;
                assert(*sa & 31 < 32) by (bit_vector);
                let v = self.registers[*rt as usize] << s;
                self.set(*rd, v);
                self.next_pc();
                Ok(())
            },
            CoreInstruction::Srl { rd, rt, sa } => {
                let s = *sa & 31;
                assert(*sa & 31 < 32) by (bit_vector);
                let v = self.registers[*rt as usize] >> s;
                self.set(*rd, v);
                self.next_pc();
                Ok(())
            },
            CoreInstruction::Sra { rd, rt, sa } => {
                let s = *sa & 31;
                assert(*sa & 31 < 32) by (bit_vector);
                let x = self.registers[*rt as usize];
                let v = if x < 0x8000_0000 { x >> s } else { !((!x) >> s) };
                self.set(*rd, v);
                self.next_pc();
                Ok(())
            },
            CoreInstruction::Slt { rd, rs, rt } => {
                let lt = to_signed(self.registers[*rs as usize]) < to_signed(self.registers[*rt as usize]);
                self.set(*rd, if lt { 1 } else { 0 });
                self.next_pc();
                Ok(())
            },
            CoreInstruction::Sltu { rd, rs, rt } => {
                let lt = self.registers[*rs as usize] < self.registers[*rt as usize];
                self.set(*rd, if lt { 1 } else { 0 });
                self.next_pc();
                Ok(())
            },
            CoreInstruction::Slti { rt, rs, imm } => {
                let lt = to_signed(self.registers[*rs as usize]) < *imm as i64;
                self.set(*rt, if lt { 1 } else { 0 });
                self.next_pc();
                Ok(())
            },
            CoreInstruction::Sltiu { rt, rs, imm } => {
                let lt = self.registers[*rs as usize] < *imm;
                self.set(*rt, if lt { 1 } else { 0 });
                self.next_pc();
                Ok(())
            },
            CoreInstruction::Lui { rt, imm } => {
                let v = *imm << 16u32;
                self.set(*rt, v);
                self.next_pc();
                Ok(())
            },
            CoreInstruction::Lw { rt, rs, imm } => {
                let a = wrap(self.registers[*rs as usize] as i64 + *imm as i64);
                if a % 4 != 0 {
                    return Err(EmuError::UnalignedAccess(a));
                }
                let w = self.memory.load_word(a);
                self.last_mem_access = Some((a, 4));
                self.set(*rt, #[verifier::truncate] (w as u32));
                self.next_pc();
                Ok(())
            },
            CoreInstruction::Lh { rt, rs, imm } => {
                let a = wrap(self.registers[*rs as usize] as i64 + *imm as i64);
                if a % 2 != 0 {
                    return Err(EmuError::UnalignedAccess(a));
                }
                let h = self.memory.load_halfword(a);
                let hu: u16 = #[verifier::truncate] (h as u16);
                let v: u32 = if hu < 0x8000 { hu as u32 } else { hu as u32 + 0xFFFF_0000 };
                self.last_mem_access = Some((a, 2));
                self.set(*rt, v);
                self.next_pc();
                Ok(())
            },
            CoreInstruction::Lb { rt, rs, imm } => {
                let a = wrap(self.registers[*rs as usize] as i64 + *imm as i64);
                let b = self.memory.load_byte(a);
                let bu: u8 = #[verifier::truncate] (b as u8);
                let v: u32 = if bu < 0x80 { bu as u32 } else { bu as u32 + 0xFFFF_FF00 };
                self.last_mem_access = Some((a, 1));
                self.set(*rt, v);
                self.next_pc();
                Ok(())
            },
            CoreInstruction::Sw { rt, rs, imm } => {
                let a = wrap(self.registers[*rs as usize] as i64 + *imm as i64);
                if a % 4 != 0 {
                    return Err(EmuError::UnalignedAccess(a));
                }
                let x = self.registers[*rt as usize];
                let v: i32 = #[verifier::truncate] (x as i32);
                assert(#[verifier::truncate] (v as u32) == x) by (bit_vector)
                    requires v == #[verifier::truncate] (x as i32);
                self.memory.set_word(a, v);
                self.last_mem_access = Some((a, 4));
                self.next_pc();
                Ok(())
            },
            CoreInstruction::Sh { rt, rs, imm } => {
                let a = wrap(self.registers[*rs as usize] as i64 + *imm as i64);
                if a % 2 != 0 {
                    return Err(EmuError::UnalignedAccess(a));
                }
                let x = self.registers[*rt as usize];
                let v: i16 = #[verifier::truncate] (x as i16);
                assert(#[verifier::truncate] (v as u16) == (x & 0xFFFF) as u16) by (bit_vector)
                    requires v == #[verifier::truncate] (x as i16);
                self.memory.set_halfword(a, v);
                self.last_mem_access = Some((a, 2));
                self.next_pc();
                Ok(())
            },
            CoreInstruction::Sb { rt, rs, imm } => {
                let a = wrap(self.registers[*rs as usize] as i64 + *imm as i64);
                let x = self.registers[*rt as usize];
                let v: i8 = #[verifier::truncate] (x as i8);
                assert(#[verifier::truncate] (v as u8) == (x & 0xFF) as u8) by (bit_vector)
                    requires v == #[verifier::truncate] (x as i8);
                self.memory.set_byte(a, v);
                self.last_mem_access = Some((a, 1));
                self.next_pc();
                Ok(())
            },
            CoreInstruction::J { label } => {
                match find_symbol(&prog.labels, label.as_slice()) {
                    Some(t) => {
                        self.pc = t;
                        Ok(())
                    },
                    None => Err(EmuError::UndefinedLabel(copy_label(label))),
                }
            },
            CoreInstruction::Jal { label } => {
                match find_symbol(&prog.labels, label.as_slice()) {
                    Some(t) => {
                        let frame = self.saved();
                        self.frames.push(frame);
                        let ra = wrap(self.pc as i64 + 4);
                        self.registers.set(REG_RA as usize, ra);
                        self.pc = t;
                        proof {
                            assert(self.frames@.map_values(|f: Vec<u32>| f@) =~= old(self)@.frames.push(
                                saved_regs(old(self).registers@),
                            ));
                        }
                        Ok(())
                    },
                    None => Err(EmuError::UndefinedLabel(copy_label(label))),
                }
            },
            CoreInstruction::Jr { rs } => {
                let t = self.registers[*rs as usize];
                let checked = *rs == REG_RA && self.frames.len() > 0;
                if checked {
                    let current = self.saved();
                    let last = self.frames.len() - 1;
                    proof {
                        assert(self@.frames.last() == self.frames@[last as int]@);
                    }
                    match first_mismatch(&self.frames[last], &current) {
                        Some(k) => {
                            let id: Reg = if k == 0 {
                                REG_SP
                            } else if k == 1 {
                                REG_FP
                            } else {
                                (k + 14) as u8
                            };
                            return Err(EmuError::CallingConventionViolation(id));
                        },
                        None => {},
                    }
                }
                if t % 4 != 0 {
                    return Err(EmuError::UnalignedAccess(t));
                }
                if prog.pc_to_index(t).is_none() {
                    return Err(EmuError::InvalidJump(t));
                }
                if checked {
                    self.frames.pop();
                    proof {
                        assert(self.frames@.map_values(|f: Vec<u32>| f@) =~= old(self)@.frames.drop_last());
                    }
                }
                self.pc = t;
                Ok(())
            },
            CoreInstruction::Beq { rs, rt, label } => {
                if self.registers[*rs as usize] == self.registers[*rt as usize] {
                    match find_symbol(&prog.labels, label.as_slice()) {
                        Some(t) => {
                            self.pc = t;
                            Ok(())
                        },
                        None => Err(EmuError::UndefinedLabel(copy_label(label))),
                    }
                } else {
                    self.next_pc();
                    Ok(())
                }
            },
            CoreInstruction::Bne { rs, rt, label } => {
                if self.registers[*rs as usize] != self.registers[*rt as usize] {
                    match find_symbol(&prog.labels, label.as_slice()) {
                        Some(t) => {
                            self.pc = t;
                            Ok(())
                        },
                        None => Err(EmuError::UndefinedLabel(copy_label(label))),
                    }
                } else {
                    self.next_pc();
                    Ok(())
                }
            },
            CoreInstruction::Mult { rs, rt } => {
                let a = to_signed(self.registers[*rs as usize]);
                let b = to_signed(self.registers[*rt as usize]);
                assert(-0x4000_0000_0000_0000 <= a * b <= 0x4000_0000_0000_0000) by (nonlinear_arith)
                    requires
                        -0x8000_0000 <= a < 0x8000_0000,
                        -0x8000_0000 <= b < 0x8000_0000,
                ;
                let p: i64 = a * b;
                let u: u64 = if p >= 0 {
                    p as u64
                } else {
                    ((p + 0x4000_0000_0000_0000) as u64) + 0xC000_0000_0000_0000u64
                };
                assert(u as int == (p as int) % 0x1_0000_0000_0000_0000);
                self.lo = (u % 0x1_0000_0000) as u32;
                self.hi = (u / 0x1_0000_0000) as u32;
                self.next_pc();
                Ok(())
            },
            CoreInstruction::Multu { rs, rt } => {
                let a = self.registers[*rs as usize] as u64;
                let b = self.registers[*rt as usize] as u64;
                assert(a * b <= 0xFFFF_FFFE_0000_0001) by (nonlinear_arith)
                    requires
                        a <= 0xFFFF_FFFF,
                        b <= 0xFFFF_FFFF,
                ;
                let p: u64 = a * b;
                self.lo = (p % 0x1_0000_0000) as u32;
                self.hi = (p / 0x1_0000_0000) as u32;
                self.next_pc();
                Ok(())
            },
            CoreInstruction::Div { rs, rt } => {
                if self.registers[*rt as usize] == 0 {
                    return Err(EmuError::DivideByZero);
                }
                let a = to_signed(self.registers[*rs as usize]);
                let b = to_signed(self.registers[*rt as usize]);
                let ua: u64 = if a < 0 { (-a) as u64 } else { a as u64 };
                let ub: u64 = if b < 0 { (-b) as u64 } else { b as u64 };
                let q = ua / ub;
                let m = ua % ub;
                assert(q <= ua) by (nonlinear_arith)
                    requires
                        ub >= 1,
                        q == ua / ub,
                ;
                let qs: i64 = if (a < 0) != (b < 0) { -(q as i64) } else { q as i64 };
                let ms: i64 = if a < 0 { -(m as i64) } else { m as i64 };
                self.lo = wrap(qs);
                self.hi = wrap(ms);
                self.next_pc();
                Ok(())
            },
            CoreInstruction::Divu { rs, rt } => {
                let b = self.registers[*rt as usize];
                if b == 0 {
                    return Err(EmuError::DivideByZero);
                }
                let a = self.registers[*rs as usize];
                self.lo = a / b;
                self.hi = a % b;
                self.next_pc();
                Ok(())
            },
            CoreInstruction::Mfhi { rd } => {
                let v = self.hi;
                self.set(*rd, v);
                self.next_pc();
                Ok(())
            },
            CoreInstruction::Mflo { rd } => {
                let v = self.lo;
                self.set(*rd, v);
                self.next_pc();
                Ok(())
            },
        }
    }
}

} // verus!
