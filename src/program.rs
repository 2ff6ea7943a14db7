use vstd::prelude::*;
use crate::instruction::{CoreInstruction, Reg};
use crate::memory::DEFAULT_TEXT_BASE_ADDRESS;
use crate::text::{chars_eq, chars_of};
use crate::assembler::{assembled, core_views, Assembler};
use crate::memory::Memory;
use crate::parser::ParseError;

verus! {

/// Why assembling or running a program stopped.
#[derive(Debug, Clone)]
pub enum EmuError {
    /// Bad syntax, an unknown mnemonic, a wrong operand shape, an
    /// out-of-range literal or a duplicate label, on the given source line.
    ParsingError(usize),
    /// A register operand that is not one of the 32 names, on the given line.
    InvalidReg(usize),
    /// An immediate that does not fit the operand, on the given line.
    InvalidImm(usize),
    /// A word or halfword access, or a jump target, that is not aligned.
    UnalignedAccess(u32),
    /// A jump target that is not the address of an instruction.
    InvalidJump(u32),
    /// A label that the symbol table does not hold.
    UndefinedLabel(Vec<char>),
    /// On `jr $ra`, the first callee-saved register (or `$sp`, `$fp`) whose
    /// value differs from the one saved at the matching `jal`.
    CallingConventionViolation(Reg),
    DivideByZero,
    /// The run reached its instruction limit after this many instructions.
    ExecutionLimitExceeded(u64),
    /// The program counter left the text segment: a normal end.
    Termination,
    /// The next instruction sits on a breakpoint line.
    Breakpoint,
}

/// Two errors are the same, comparing labels by their characters.
pub open spec fn same_error(a: EmuError, b: EmuError) -> bool {
    match (a, b) {
        (EmuError::UndefinedLabel(x), EmuError::UndefinedLabel(y)) => x@ == y@,
        (EmuError::UndefinedLabel(_), _) => false,
        (_, EmuError::UndefinedLabel(_)) => false,
        _ => a == b,
    }
}

/// A symbol table as plain values: names and addresses, in order.
pub type Symbols = Seq<(Seq<char>, u32)>;

pub open spec fn symbols_view(v: Seq<(Vec<char>, u32)>) -> Symbols {
    v.map_values(|e: (Vec<char>, u32)| (e.0@, e.1))
}

/// The address of the first entry named `name`.
pub open spec fn symbol_lookup(syms: Symbols, name: Seq<char>) -> Option<u32>
    decreases syms.len(),
{
    if syms.len() == 0 {
        None
    } else if syms[0].0 == name {
        Some(syms[0].1)
    } else {
        symbol_lookup(syms.drop_first(), name)
    }
}

/// No name appears twice.
pub open spec fn names_unique(syms: Symbols) -> bool {
    forall|i: int, j: int|
        0 <= i < syms.len() && 0 <= j < syms.len() && i != j ==> #[trigger] syms[i].0 != #[trigger] syms[j].0
}

/// The instruction index of `pc` in a text segment of `len` instructions.
pub open spec fn pc_index(pc: u32, len: nat) -> Option<nat> {
    if pc >= DEFAULT_TEXT_BASE_ADDRESS && (pc - DEFAULT_TEXT_BASE_ADDRESS) % 4 == 0 && ((pc
        - DEFAULT_TEXT_BASE_ADDRESS) / 4) < len {
        Some(((pc - DEFAULT_TEXT_BASE_ADDRESS) / 4) as nat)
    } else {
        None
    }
}

pub open spec fn index_pc(i: int) -> int {
    DEFAULT_TEXT_BASE_ADDRESS + 4 * i
}

/// Most instructions a text segment can hold below the top of the address space.
pub const MAX_INSTRUCTIONS: usize = 0x3FEF_FFFF;

/// The address of the first entry of `syms` named `name`.
pub fn find_symbol(syms: &Vec<(Vec<char>, u32)>, name: &[char]) -> (r: Option<u32>)
    ensures
        r == symbol_lookup(symbols_view(syms@), name@),
{
    let ghost all = symbols_view(syms@);
    let mut i: usize = 0;
    assert(all.subrange(0, all.len() as int) =~= all);
    while i < syms.len()
        invariant
            i <= syms@.len(),
            all == symbols_view(syms@),
            symbol_lookup(all, name@) == symbol_lookup(all.subrange(i as int, all.len() as int), name@),
        decreases syms@.len() - i,
    {
        proof {
            let rest = all.subrange(i as int, all.len() as int);
            assert(rest.drop_first() =~= all.subrange(i + 1, all.len() as int));
        }
        if chars_eq(syms[i].0.as_slice(), name) {
            return Some(syms[i].1);
        }
        i += 1;
    }
    None
}

/// An assembled program: core instructions, the symbol table, and the
/// source line of each instruction.
#[derive(Debug, Clone)]
pub struct Program {
    pub instructions: Vec<CoreInstruction>,
    pub labels: Vec<(Vec<char>, u32)>,
    pub line_numbers: Vec<usize>,
}

impl Program {
    pub open spec fn symbols(&self) -> Symbols {
        symbols_view(self.labels@)
    }

    pub open spec fn wf(&self) -> bool {
        &&& self.instructions@.len() <= MAX_INSTRUCTIONS
        &&& self.line_numbers@.len() == self.instructions@.len()
        &&& forall|i: int| 0 <= i < self.instructions@.len() ==> #[trigger] self.instructions@[i].regs_valid()
    }

    /// Assembles `src`, writing its data segment into `memory`.
    pub fn parse(src: &str, memory: &mut Memory) -> (r: Result<Program, EmuError>)
        requires
            old(memory).wf(),
            src@.len() < usize::MAX,
        ensures
            final(memory).wf(),
            match assembled(src@, old(memory)@) {
                Ok((insns, syms, lines, mem)) => r is Ok && core_views(r->Ok_0.instructions@) == insns
                    && r->Ok_0.symbols() == syms && r->Ok_0.line_numbers@ == lines && final(memory)@ == mem
                    && r->Ok_0.wf(),
                Err(ParseError::At(e)) => r == Err::<Program, EmuError>(e),
                Err(ParseError::Undefined(l)) => r is Err && (r->Err_0 matches EmuError::UndefinedLabel(x) && x@ == l),
            },
    {
        let mut assembler = Assembler::new();
        match assembler.assemble(src, memory) {
            Ok((instructions, labels, line_numbers)) => Ok(Program { instructions, labels, line_numbers }),
            Err(e) => Err(e),
        }
    }

    /// The address of `label`.
    pub fn get_label_address(&self, label: &str) -> (r: Option<u32>)
        ensures
            r == symbol_lookup(self.symbols(), label@),
    {
        let name = chars_of(label);
        find_symbol(&self.labels, name.as_slice())
    }

    /// The index of the instruction at address `pc`.
    pub fn pc_to_index(&self, pc: u32) -> (r: Option<usize>)
        ensures
            match pc_index(pc, self.instructions@.len()) {
                Some(i) => r == Some(i as usize),
                None => r is None,
            },
    {
        if pc < DEFAULT_TEXT_BASE_ADDRESS {
            return None;
        }
        let offset: u32 = pc - DEFAULT_TEXT_BASE_ADDRESS;
        if offset % 4 != 0 {
            return None;
        }
        let index: usize = (offset / 4) as usize;
        if index < self.instructions.len() {
            Some(index)
        } else {
            None
        }
    }

    /// The address of the instruction at `index`.
    pub fn index_to_pc(&self, index: usize) -> (r: u32)
        requires
            index <= MAX_INSTRUCTIONS,
        ensures
            r == index_pc(index as int),
    {
        DEFAULT_TEXT_BASE_ADDRESS + (index as u32) * 4
    }
}

} // verus!
