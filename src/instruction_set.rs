use vstd::prelude::*;

verus! {

/// The binary encoding fields of a MIPS instruction.
#[derive(Clone, Copy, Debug, PartialEq, Eq, Structural)]
pub struct Instruction {
    pub opcode: u8,
    pub rs: u8,
    pub rt: u8,
    pub rd: u8,
    pub shamt: u8,
    pub funct: u8,
    pub immediate: u16,
    pub address: u32,
}

/// An encoding with the given opcode and function code, every other field zero.
pub open spec fn encoding(opcode: u8, funct: u8) -> Instruction {
    Instruction { opcode, rs: 0, rt: 0, rd: 0, shamt: 0, funct, immediate: 0, address: 0 }
}

impl Instruction {
    pub fn new() -> (r: Self)
        ensures
            r == encoding(0, 0),
    {
        Instruction { opcode: 0, rs: 0, rt: 0, rd: 0, shamt: 0, funct: 0, immediate: 0, address: 0 }
    }
}

/// The encodings of `add`, `addi`, `sub`, `lw` and `sw`, by mnemonic.
pub open spec fn known_encodings() -> Seq<(Seq<char>, Instruction)> {
    seq![
        (seq!['a', 'd', 'd'], encoding(0, 32)),
        (seq!['a', 'd', 'd', 'i'], encoding(8, 0)),
        (seq!['s', 'u', 'b'], encoding(0, 34)),
        (seq!['l', 'w'], encoding(35, 0)),
        (seq!['s', 'w'], encoding(43, 0)),
    ]
}

/// A table from mnemonic to binary encoding.
pub struct InstructionSet {
    pub instructions: Vec<(Vec<char>, Instruction)>,
}

impl InstructionSet {
    pub open spec fn entries(&self) -> Seq<(Seq<char>, Instruction)> {
        self.instructions@.map_values(|e: (Vec<char>, Instruction)| (e.0@, e.1))
    }

    pub fn new() -> (r: Self)
        ensures
            r.entries() == known_encodings(),
    {
        let mut instructions: Vec<(Vec<char>, Instruction)> = Vec::new();
        let add = Instruction { opcode: 0, rs: 0, rt: 0, rd: 0, shamt: 0, funct: 32, immediate: 0, address: 0 };
        let addi = Instruction { opcode: 8, rs: 0, rt: 0, rd: 0, shamt: 0, funct: 0, immediate: 0, address: 0 };
        let sub = Instruction { opcode: 0, rs: 0, rt: 0, rd: 0, shamt: 0, funct: 34, immediate: 0, address: 0 };
        let lw = Instruction { opcode: 35, rs: 0, rt: 0, rd: 0, shamt: 0, funct: 0, immediate: 0, address: 0 };
        let sw = Instruction { opcode: 43, rs: 0, rt: 0, rd: 0, shamt: 0, funct: 0, immediate: 0, address: 0 };
        instructions.push((vec!['a', 'd', 'd'], add));
        instructions.push((vec!['a', 'd', 'd', 'i'], addi));
        instructions.push((vec!['s', 'u', 'b'], sub));
        instructions.push((vec!['l', 'w'], lw));
        instructions.push((vec!['s', 'w'], sw));
        let r = InstructionSet { instructions };
        assert(r.entries() =~= known_encodings());
        r
    }
}

/// State shared by the front ends.
pub struct Globals {
    pub instruction_set: InstructionSet,
}

impl Globals {
    pub fn new() -> (r: Self)
        ensures
            r.instruction_set.entries() == known_encodings(),
    {
        Globals { instruction_set: InstructionSet::new() }
    }
}

} // verus!
