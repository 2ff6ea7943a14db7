use mips_emu::cpu::{CPU, DEFAULT_MAX_INSTRUCTIONS};
use mips_emu::instruction::CoreInstruction;
use mips_emu::lexer::{Lexer, TokenType};
use mips_emu::memory::{Memory, DEFAULT_STATIC_DATA_BASE_ADDRESS, DEFAULT_TEXT_BASE_ADDRESS};
use mips_emu::instruction_set::{Globals, Instruction, InstructionSet};
use mips_emu::mmio::{Device, DeviceState, IoDevice, LedDevice, MmioBus};
use mips_emu::program::{EmuError, Program};

fn loaded(src: &str) -> CPU {
    let mut cpu = CPU::new();
    cpu.load_source(src).unwrap();
    cpu
}

#[test]
fn branch_taken_skips_code() {
    let mut cpu = loaded("li $t0, 10\nli $t1, 10\nbeq $t0, $t1, L\nli $t2, 100\nj E\nL:\nli $t2, 50\nE:\n");
    assert!(cpu.run().is_ok());
    assert_eq!(cpu.get_reg("$t2"), 50);
}

#[test]
fn li_hex_takes_two_instructions() {
    let mut cpu = loaded("li $t0, 0xFFFFFFFF\nli $t1, 2\naddu $t2, $t0, $t1\n");
    let p = cpu.get_program().unwrap();
    assert_eq!(p.instructions.len(), 4);
    assert!(matches!(p.instructions[0], CoreInstruction::Lui { rt: 1, imm: 0xFFFF }));
    assert!(matches!(p.instructions[1], CoreInstruction::Ori { rt: 8, rs: 1, imm: 0xFFFF }));
    assert!(matches!(p.instructions[2], CoreInstruction::Addi { rt: 9, rs: 0, imm: 2 }));
    assert!(matches!(p.instructions[3], CoreInstruction::Addu { rd: 10, rs: 8, rt: 9 }));
    assert_eq!(p.line_numbers, vec![1, 1, 2, 3]);
    assert!(cpu.run().is_ok());
    assert_eq!(cpu.get_reg("$t0"), 0xFFFF_FFFF);
    assert_eq!(cpu.get_reg("$t2"), 1);
}

#[test]
fn li_expansions() {
    let mut mem = Memory::new();
    let p = Program::parse("li $t0, 5\nli $t1, 40000\nli $t2, 0x12345678\nli $t3, -2\n", &mut mem).unwrap();
    assert_eq!(p.instructions.len(), 5);
    assert!(matches!(p.instructions[0], CoreInstruction::Addi { rt: 8, rs: 0, imm: 5 }));
    assert!(matches!(p.instructions[1], CoreInstruction::Ori { rt: 9, rs: 0, imm: 40000 }));
    assert!(matches!(p.instructions[2], CoreInstruction::Lui { rt: 1, imm: 0x1234 }));
    assert!(matches!(p.instructions[3], CoreInstruction::Ori { rt: 10, rs: 1, imm: 0x5678 }));
    assert!(matches!(p.instructions[4], CoreInstruction::Addi { rt: 11, rs: 0, imm: -2 }));
    assert_eq!(p.line_numbers, vec![1, 2, 3, 3, 4]);
}

#[test]
fn store_then_load_records_access() {
    let mut cpu = loaded("li $t1, 100\nli $t2, 42\nsw $t2, 0($t1)\nlw $t0, 0($t1)\n");
    for _ in 0..3 {
        cpu.next().unwrap();
    }
    assert_eq!(cpu.last_mem_access, Some((100, 4)));
    cpu.next().unwrap();
    assert_eq!(cpu.get_reg("$t0"), 42);
    assert_eq!(cpu.last_mem_access, Some((100, 4)));
    assert!(matches!(cpu.next(), Err(EmuError::Termination)));
    assert_eq!(cpu.last_mem_access, None);
}

#[test]
fn nested_calls_restore_frames() {
    let src = "li $t0, 10\n\
               sw $ra, 0($sp)\n\
               addi $sp, $sp, -4\n\
               jal f1\n\
               addi $sp, $sp, 4\n\
               lw $ra, 0($sp)\n\
               j end\n\
               f1:\n\
               sw $ra, 0($sp)\n\
               addi $sp, $sp, -4\n\
               jal f2\n\
               addi $sp, $sp, 4\n\
               lw $ra, 0($sp)\n\
               jr $ra\n\
               f2:\n\
               addi $t0, $t0, 5\n\
               jr $ra\n\
               end:\n";
    let mut cpu = loaded(src);
    assert!(cpu.run().is_ok());
    assert_eq!(cpu.get_reg("$t0"), 15);
    assert_eq!(cpu.get_reg("$sp"), 0x7FFF_FFFC);
    assert!(cpu.frames.is_empty());
}

#[test]
fn data_word_and_la() {
    let mut cpu = loaded(".data\nx: .word 7\n.text\nla $t0, x\nlw $t1, 0($t0)\n");
    assert!(cpu.run().is_ok());
    assert_eq!(cpu.get_reg("$t1"), 7);
    let addr = cpu.get_program().unwrap().get_label_address("x").unwrap();
    assert_eq!(addr & 3, 0);
    assert_eq!(addr, DEFAULT_STATIC_DATA_BASE_ADDRESS);
    assert_eq!(cpu.get_reg("$t0"), addr);
}

#[test]
fn divide_by_zero_stops_at_the_division() {
    let mut cpu = loaded("li $t0, 10\nli $t1, 0\ndiv $t0, $t1\n");
    assert!(matches!(cpu.run(), Err(EmuError::DivideByZero)));
    assert_eq!(cpu.pc, DEFAULT_TEXT_BASE_ADDRESS + 8);
    assert!(matches!(cpu.next(), Err(EmuError::DivideByZero)));
    assert_eq!(cpu.pc, DEFAULT_TEXT_BASE_ADDRESS + 8);
}

#[test]
fn unrestored_saved_register_is_caught() {
    let mut cpu = loaded("jal f\nj end\nf:\naddi $s0, $s0, 1\njr $ra\nend:\n");
    assert!(matches!(cpu.run(), Err(EmuError::CallingConventionViolation(16))));
}

#[test]
fn unrestored_stack_pointer_is_caught() {
    let mut cpu = loaded("jal f\nj end\nf:\naddi $sp, $sp, -4\njr $ra\nend:\n");
    assert!(matches!(cpu.run(), Err(EmuError::CallingConventionViolation(29))));
}

#[test]
fn restored_saved_register_passes() {
    let mut cpu = loaded("jal f\nj end\nf:\naddi $s0, $s0, 1\naddi $s0, $s0, -1\njr $ra\nend:\n");
    assert!(cpu.run().is_ok());
}

#[test]
fn execution_limit_is_exact() {
    let mut cpu = loaded("loop:\naddi $t0, $t0, 1\nj loop\n");
    assert_eq!(cpu.max_instructions, DEFAULT_MAX_INSTRUCTIONS);
    assert!(matches!(cpu.run(), Err(EmuError::ExecutionLimitExceeded(10_000))));
    assert_eq!(cpu.get_reg("$t0"), 5000);
    let mut small = loaded("loop:\naddi $t0, $t0, 1\nj loop\n");
    small.max_instructions = 5;
    assert!(matches!(small.run(), Err(EmuError::ExecutionLimitExceeded(5))));
    assert_eq!(small.get_reg("$t0"), 3);
}

#[test]
fn breakpoint_pauses_and_resumes() {
    let mut cpu = loaded("li $t0, 1\nli $t1, 2\nli $t2, 3\n");
    cpu.set_breakpoints(vec![2]);
    assert!(matches!(cpu.run(), Err(EmuError::Breakpoint)));
    assert_eq!(cpu.get_reg("$t1"), 2);
    assert_eq!(cpu.get_reg("$t2"), 0);
    assert_eq!(cpu.get_current_line(), 2);
    assert!(cpu.run().is_ok());
    assert_eq!(cpu.get_reg("$t2"), 3);
    assert_eq!(cpu.get_current_line(), -1);
}

#[test]
fn pseudo_branches() {
    let mut cpu = loaded(
        "li $t0, -1\nli $t1, 1\nblt $t0, $t1, a\nli $s1, 9\na:\nbgt $t1, $t0, b\nli $s2, 9\nb:\nble $t0, $t0, c\nli $s3, 9\nc:\nbge $t0, $t1, d\nli $s4, 4\nd:\nmove $s5, $t1\n",
    );
    assert!(cpu.run().is_ok());
    assert_eq!(cpu.get_reg("$s1"), 0);
    assert_eq!(cpu.get_reg("$s2"), 0);
    assert_eq!(cpu.get_reg("$s3"), 0);
    assert_eq!(cpu.get_reg("$s4"), 4);
    assert_eq!(cpu.get_reg("$s5"), 1);
}

#[test]
fn arithmetic_and_shifts() {
    let mut cpu = loaded(
        "li $t0, -8\nsra $t1, $t0, 1\nsrl $t2, $t0, 28\nsll $t3, $t0, 2\nslt $t4, $t0, $zero\nsltu $t5, $t0, $zero\nnor $t6, $zero, $zero\nxori $t7, $t0, 15\nlui $s0, 1\nslti $s1, $t0, -7\nsltiu $s2, $t0, 5\nsub $s3, $zero, $t0\n",
    );
    assert!(cpu.run().is_ok());
    assert_eq!(cpu.get_reg("$t1"), (-4i32) as u32);
    assert_eq!(cpu.get_reg("$t2"), 0xF);
    assert_eq!(cpu.get_reg("$t3"), (-32i32) as u32);
    assert_eq!(cpu.get_reg("$t4"), 1);
    assert_eq!(cpu.get_reg("$t5"), 0);
    assert_eq!(cpu.get_reg("$t6"), 0xFFFF_FFFF);
    assert_eq!(cpu.get_reg("$t7"), (-8i32) as u32 ^ 15);
    assert_eq!(cpu.get_reg("$s0"), 0x1_0000);
    assert_eq!(cpu.get_reg("$s1"), 1);
    assert_eq!(cpu.get_reg("$s2"), 0);
    assert_eq!(cpu.get_reg("$s3"), 8);
}

#[test]
fn multiply_and_divide() {
    let mut cpu = loaded(
        "li $t0, -7\nli $t1, 2\nmult $t0, $t1\nmflo $s0\nmfhi $s1\ndiv $t0, $t1\nmflo $s2\nmfhi $s3\nli $t2, 0x80000000\nmultu $t2, $t1\nmfhi $s4\nmflo $s5\ndivu $t2, $t1\nmflo $s6\n",
    );
    assert!(cpu.run().is_ok());
    assert_eq!(cpu.get_reg("$s0"), (-14i32) as u32);
    assert_eq!(cpu.get_reg("$s1"), 0xFFFF_FFFF);
    assert_eq!(cpu.get_reg("$s2"), (-3i32) as u32);
    assert_eq!(cpu.get_reg("$s3"), (-1i32) as u32);
    assert_eq!(cpu.get_reg("$s4"), 1);
    assert_eq!(cpu.get_reg("$s5"), 0);
    assert_eq!(cpu.get_reg("$s6"), 0x4000_0000);
    assert_eq!(cpu.get_lo(), 0x4000_0000);
    assert_eq!(cpu.get_hi(), 0);
}

#[test]
fn bytes_and_halfwords() {
    let mut cpu = loaded("li $t0, 0x1000\nli $t1, -2\nsh $t1, 2($t0)\nlh $t2, 2($t0)\nsb $t1, 5($t0)\nlb $t3, 5($t0)\nlw $t4, 0($t0)\n");
    assert!(cpu.run().is_ok());
    assert_eq!(cpu.get_reg("$t2"), 0xFFFF_FFFE);
    assert_eq!(cpu.get_reg("$t3"), 0xFFFF_FFFE);
    assert_eq!(cpu.get_reg("$t4"), 0x0000_FFFE);
}

#[test]
fn unaligned_word_access_is_refused() {
    let mut cpu = loaded("li $t0, 3\nlw $t1, 0($t0)\n");
    assert!(matches!(cpu.run(), Err(EmuError::UnalignedAccess(3))));
    assert_eq!(cpu.pc, DEFAULT_TEXT_BASE_ADDRESS + 4);
}

#[test]
fn jump_register_checks() {
    let mut cpu = loaded("li $t0, 6\njr $t0\n");
    assert!(matches!(cpu.run(), Err(EmuError::UnalignedAccess(6))));
    let mut cpu = loaded("li $t0, 8\njr $t0\n");
    assert!(matches!(cpu.run(), Err(EmuError::InvalidJump(8))));
}

#[test]
fn syntax_errors() {
    let mut cpu = CPU::new();
    assert!(matches!(cpu.load_source("add $t0, $t1\n"), Err(EmuError::ParsingError(1))));
    assert!(cpu.get_program().is_none());
    assert!(matches!(cpu.load_source("nop\n"), Err(EmuError::ParsingError(1))));
    assert!(matches!(cpu.load_source("li $t0, 1\nadd $t0, $xx, $t1\n"), Err(EmuError::InvalidReg(2))));
    assert!(matches!(cpu.load_source("addi $t0, $t0, 99999999999\n"), Err(EmuError::InvalidImm(1))));
    assert!(matches!(cpu.load_source("sll $t0, $t0, 32\n"), Err(EmuError::InvalidImm(1))));
    assert!(matches!(cpu.load_source("a:\na:\n"), Err(EmuError::ParsingError(2))));
    assert!(matches!(cpu.load_source(".data\nb: .byte 200\n"), Err(EmuError::ParsingError(2))));
    assert!(matches!(cpu.load_source("lw $t0, x\n"), Err(EmuError::ParsingError(1))));
    match cpu.load_source("j nowhere\n") {
        Err(EmuError::UndefinedLabel(l)) => assert_eq!(l.iter().collect::<String>(), "nowhere"),
        _ => panic!("expected an undefined label"),
    }
}

#[test]
fn data_directives_lay_out_memory() {
    let mut mem = Memory::new();
    let p = Program::parse(
        ".data\nb: .byte 1, -1\nw: .word 5\nh: .half 258\ns: .asciiz \"hi\"\nsp: .space 3\nz: .ascii \"Z\"\n",
        &mut mem,
    )
    .unwrap();
    let base = DEFAULT_STATIC_DATA_BASE_ADDRESS;
    assert_eq!(p.get_label_address("b"), Some(base));
    assert_eq!(p.get_label_address("w"), Some(base + 4));
    assert_eq!(p.get_label_address("h"), Some(base + 8));
    assert_eq!(p.get_label_address("s"), Some(base + 10));
    assert_eq!(p.get_label_address("sp"), Some(base + 13));
    assert_eq!(p.get_label_address("z"), Some(base + 16));
    assert_eq!(p.get_label_address("missing"), None);
    assert_eq!(mem.load_byte(base), 1);
    assert_eq!(mem.load_byte(base + 1), -1);
    assert_eq!(mem.load_word(base + 4), 5);
    assert_eq!(mem.load_halfword(base + 8), 258);
    assert_eq!(mem.get_memory_slice(base + 10, 3), vec![b'h', b'i', 0]);
    assert_eq!(mem.load_byte(base + 16), b'Z' as i8);
}

#[test]
fn text_labels_follow_expansion() {
    let mut mem = Memory::new();
    let p = Program::parse("la $t0, later\nli $t1, 0x10000\nlater: add $t2, $t1, $t1\n", &mut mem).unwrap();
    assert_eq!(p.instructions.len(), 5);
    assert_eq!(p.get_label_address("later"), Some(DEFAULT_TEXT_BASE_ADDRESS + 16));
    assert!(matches!(p.instructions[1], CoreInstruction::Ori { rt: 8, rs: 1, imm: 16 }));
    assert_eq!(p.pc_to_index(DEFAULT_TEXT_BASE_ADDRESS + 16), Some(4));
    assert_eq!(p.pc_to_index(DEFAULT_TEXT_BASE_ADDRESS + 20), None);
    assert_eq!(p.pc_to_index(DEFAULT_TEXT_BASE_ADDRESS + 2), None);
    assert_eq!(p.pc_to_index(0), None);
    assert_eq!(p.index_to_pc(3), DEFAULT_TEXT_BASE_ADDRESS + 12);
}

#[test]
fn memory_round_trips() {
    let mut mem = Memory::new();
    mem.set_word(0x1000_0010, -123456);
    assert_eq!(mem.load_word(0x1000_0010), -123456);
    mem.set_halfword(0x2000_0002, -300);
    assert_eq!(mem.load_halfword(0x2000_0002), -300);
    mem.set_byte(0x3000_0001, -5);
    assert_eq!(mem.load_byte(0x3000_0001), -5);
    assert_eq!(mem.load_word(0x5000_0000), 0);
}

#[test]
fn memory_is_big_endian() {
    let mut mem = Memory::new();
    mem.set_word(0x1000_0000, 0x0102_0304);
    assert_eq!(mem.load_byte(0x1000_0000), 0x01);
    assert_eq!(mem.load_byte(0x1000_0003), 0x04);
    assert_eq!(mem.load_halfword(0x1000_0002), 0x0304);
    mem.set_string(0x1000_0100, "ab");
    assert_eq!(mem.get_memory_slice(0x1000_0100, 3), vec![b'a', b'b', 0]);
}

#[test]
fn led_registers() {
    let mut mem = Memory::new();
    mem.set_word(0xFFFF_0000, 7);
    assert_eq!(mem.load_word(0xFFFF_0000), 7);
    mem.set_word(0xFFFF_0004, 0x1234_5678u32 as i32);
    assert_eq!(mem.load_word(0xFFFF_0004), 0x0034_5678);
    mem.set_byte(0xFFFF_0003, 9);
    assert_eq!(mem.load_word(0xFFFF_0000), 9);
    assert_eq!(mem.load_byte(0xFFFF_0007), 0x78);
    mem.set_word(0xFFFF_0010, 5);
    assert_eq!(mem.load_word(0xFFFF_0010), 0);
    let states = mem.bus.snapshot();
    assert_eq!(states.get(&0xFFFF_0000), Some(&DeviceState::Led { value: 9, color: 0x0034_5678 }));
}

#[test]
fn snapshot_shows_registers_and_devices() {
    let mut cpu = loaded("li $t0, 5\nlui $t1, 0xFFFF\nsw $t0, 0($t1)\n");
    assert!(cpu.run().is_ok());
    let snap = cpu.snapshot();
    assert_eq!(snap.registers.len(), 32);
    assert_eq!(snap.registers[8], 5);
    assert_eq!(snap.registers[29], 0x7FFF_FFFC);
    assert_eq!(snap.registers[30], 0x7FFF_FFFF);
    assert_eq!(snap.registers[28], 0x1000_0000);
    assert_eq!(snap.devices.get(&0xFFFF_0000), Some(&DeviceState::Led { value: 5, color: 0x00FF00 }));
}

#[test]
fn reset_clears_the_machine() {
    let mut cpu = loaded("li $t0, 5\n");
    assert!(cpu.run().is_ok());
    cpu.set_breakpoints(vec![1]);
    cpu.reset();
    assert_eq!(cpu.get_reg("$t0"), 0);
    assert_eq!(cpu.get_reg("$sp"), 0x7FFF_FFFC);
    assert!(cpu.get_program().is_none());
    assert!(cpu.breakpoints.is_empty());
    assert_eq!(cpu.pc, DEFAULT_TEXT_BASE_ADDRESS);
}

#[test]
fn set_and_get_registers_by_name() {
    let mut cpu = CPU::new();
    cpu.set_reg("$s7", 77);
    assert_eq!(cpu.get_reg("$s7"), 77);
    cpu.set_reg("$pc", 5);
    assert_eq!(cpu.get_reg("$pc"), 0);
    assert_eq!(cpu.get_reg("t0"), 0);
}

#[test]
fn execute_single_instruction() {
    let mut cpu = CPU::new();
    cpu.set_reg("$t0", 0xFFFF_FFFF);
    cpu.execute(&CoreInstruction::Addiu { rt: 9, rs: 8, imm: 2 }).unwrap();
    assert_eq!(cpu.get_reg("$t1"), 1);
    assert_eq!(cpu.pc, DEFAULT_TEXT_BASE_ADDRESS + 4);
    assert!(matches!(cpu.execute(&CoreInstruction::J { label: vec!['x'] }), Err(EmuError::UndefinedLabel(_))));
}

#[test]
fn lexer_tokens() {
    let mut lexer = Lexer::new();
    let tokens = lexer.tokenize("main: addi $t0, $zero, -5 # note\n.data\n x: .asciiz \"a b\"\nlw $t1, 4($sp)\n- 0x1F ?\n");
    let kinds: Vec<TokenType> = tokens.iter().map(|t| t.token_type).collect();
    assert_eq!(
        kinds,
        vec![
            TokenType::Identifier,
            TokenType::Colon,
            TokenType::Mnemonic,
            TokenType::RegisterName,
            TokenType::Delimiter,
            TokenType::RegisterName,
            TokenType::Delimiter,
            TokenType::Integer,
            TokenType::Comment,
            TokenType::Directive,
            TokenType::Identifier,
            TokenType::Colon,
            TokenType::Directive,
            TokenType::QuotedString,
            TokenType::Mnemonic,
            TokenType::RegisterName,
            TokenType::Delimiter,
            TokenType::Integer,
            TokenType::LeftParen,
            TokenType::RegisterName,
            TokenType::RightParen,
            TokenType::Unknown,
            TokenType::Integer,
            TokenType::Unknown,
        ]
    );
    let text: Vec<String> = tokens.iter().map(|t| t.lexeme.iter().collect()).collect();
    assert_eq!(text[7], "-5");
    assert_eq!(text[8], "# note");
    assert_eq!(text[13], "a b");
    assert_eq!(text[22], "0x1F");
    assert_eq!(tokens[9].line_number, 2);
    assert_eq!(tokens[23].line_number, 5);
    assert_eq!(lexer.getToken().map(|t| t.token_type), Some(TokenType::Identifier));
    assert_eq!(lexer.peek().map(|t| t.token_type), Some(TokenType::Colon));
}

#[test]
fn every_executed_pc_is_aligned_text() {
    let src = "li $t0, 3\nloop:\naddi $t0, $t0, -1\nbne $t0, $zero, loop\nla $t1, loop\nsw $t0, 0($sp)\n";
    let mut cpu = loaded(src);
    let len = cpu.get_program().unwrap().instructions.len() as u32;
    let mut executed = 0;
    loop {
        let pc = cpu.pc;
        match cpu.next() {
            Ok(()) => {
                assert_eq!(pc % 4, 0);
                assert!(pc >= DEFAULT_TEXT_BASE_ADDRESS && pc < DEFAULT_TEXT_BASE_ADDRESS + 4 * len);
                executed += 1;
            }
            Err(EmuError::Termination) => break,
            Err(e) => panic!("unexpected {:?}", e),
        }
    }
    assert_eq!(executed, 1 + 3 * 2 + 2 + 1);
}

#[test]
fn non_branches_advance_by_four() {
    let mut cpu = loaded("li $t0, 1\nli $t1, 2\nbeq $t0, $t1, far\nadd $t2, $t0, $t1\nbne $t0, $t0, far\nfar:\nsw $t2, 0($sp)\n");
    for _ in 0..6 {
        let before = cpu.pc;
        cpu.next().unwrap();
        assert_eq!(cpu.pc, before + 4);
    }
}

#[test]
fn symbol_table_is_unique_and_complete() {
    let mut mem = Memory::new();
    let p = Program::parse(".data\nv: .word 1\n.text\nmain: la $t0, v\nj done\nmid: blt $t0, $t1, main\ndone:\njal mid\n", &mut mem).unwrap();
    let names: Vec<String> = p.labels.iter().map(|(n, _)| n.iter().collect()).collect();
    assert_eq!(names, vec!["v", "main", "mid", "done"]);
    assert_eq!(p.get_label_address("main"), Some(DEFAULT_TEXT_BASE_ADDRESS));
    assert_eq!(p.get_label_address("mid"), Some(DEFAULT_TEXT_BASE_ADDRESS + 12));
    assert_eq!(p.get_label_address("done"), Some(DEFAULT_TEXT_BASE_ADDRESS + 20));
    for insn in &p.instructions {
        let target = match insn {
            CoreInstruction::J { label } | CoreInstruction::Jal { label } => Some(label),
            CoreInstruction::Beq { label, .. } | CoreInstruction::Bne { label, .. } => Some(label),
            _ => None,
        };
        if let Some(l) = target {
            let name: String = l.iter().collect();
            assert!(p.get_label_address(&name).is_some());
        }
    }
    let mut cpu = CPU::new();
    assert!(matches!(cpu.load_source("v: .word 1\n"), Err(EmuError::ParsingError(1))));
    assert!(matches!(cpu.load_source(".data\nv: .word 1\n.text\nv:\n"), Err(EmuError::ParsingError(4))));
}

#[test]
fn wrapping_addu_and_subu() {
    let mut cpu = CPU::new();
    cpu.set_reg("$t0", 0xFFFF_FFFF);
    cpu.set_reg("$t1", 2);
    cpu.execute(&CoreInstruction::Addu { rd: 10, rs: 8, rt: 9 }).unwrap();
    assert_eq!(cpu.get_reg("$t2"), 1);
    cpu.set_reg("$t0", 5);
    cpu.set_reg("$t1", 10);
    cpu.execute(&CoreInstruction::Subu { rd: 10, rs: 8, rt: 9 }).unwrap();
    assert_eq!(cpu.get_reg("$t2"), 0xFFFF_FFFB);
}

#[test]
fn strings_are_stored_as_utf8() {
    let mut mem = Memory::new();
    let p = Program::parse(".data\nt: .asciiz \"é!\"\n", &mut mem).unwrap();
    let base = DEFAULT_STATIC_DATA_BASE_ADDRESS;
    assert_eq!(p.get_label_address("t"), Some(base));
    assert_eq!(mem.get_memory_slice(base, 4), vec![0xC3, 0xA9, b'!', 0]);
}

#[test]
fn led_device_and_bus() {
    let mut led = LedDevice::new();
    assert_eq!(led.read(4), 0x00FF00);
    led.write(4, 0xAB12_3456);
    assert_eq!(led.read(4), 0x0012_3456);
    led.write(0, 1);
    assert_eq!(led.read(0), 1);
    assert_eq!(led.read(8), 0);
    assert_eq!(led.name(), "LED");
    assert_eq!(led.get_state(), DeviceState::Led { value: 1, color: 0x0012_3456 });
    let mut bus = MmioBus::new();
    bus.register(0x100, 8, Device::Led(led));
    assert_eq!(bus.load(0x100), 1);
    assert_eq!(bus.load(0x108), 0);
    bus.store(0x100, 0);
    assert_eq!(bus.load(0x100), 0);
    bus.store(0x200, 9);
    assert_eq!(bus.snapshot().len(), 1);
}

#[test]
fn encoding_table() {
    let set = InstructionSet::new();
    assert_eq!(set.instructions.len(), 5);
    let names: Vec<String> = set.instructions.iter().map(|(n, _)| n.iter().collect()).collect();
    assert_eq!(names, vec!["add", "addi", "sub", "lw", "sw"]);
    assert_eq!(set.instructions[0].1.funct, 32);
    assert_eq!(set.instructions[3].1.opcode, 35);
    assert_eq!(Instruction::new().opcode, 0);
    assert_eq!(Globals::new().instruction_set.instructions[4].1.opcode, 43);
}

#[test]
fn li_chooses_by_the_literal_value() {
    let mut mem = Memory::new();
    let p = Program::parse(
        "li $t0, 4294967295\nli $t1, -1\nli $t2, -32768\nli $t3, 32768\nli $t4, 65535\nli $t5, 65536\nli $t6, -40000\n",
        &mut mem,
    )
    .unwrap();
    assert_eq!(p.instructions.len(), 10);
    assert!(matches!(p.instructions[0], CoreInstruction::Lui { rt: 1, imm: 0xFFFF }));
    assert!(matches!(p.instructions[1], CoreInstruction::Ori { rt: 8, rs: 1, imm: 0xFFFF }));
    assert!(matches!(p.instructions[2], CoreInstruction::Addi { rt: 9, rs: 0, imm: -1 }));
    assert!(matches!(p.instructions[3], CoreInstruction::Addi { rt: 10, rs: 0, imm: -32768 }));
    assert!(matches!(p.instructions[4], CoreInstruction::Ori { rt: 11, rs: 0, imm: 32768 }));
    assert!(matches!(p.instructions[5], CoreInstruction::Ori { rt: 12, rs: 0, imm: 65535 }));
    assert!(matches!(p.instructions[6], CoreInstruction::Lui { rt: 1, imm: 1 }));
    assert!(matches!(p.instructions[7], CoreInstruction::Ori { rt: 13, rs: 1, imm: 0 }));
    assert!(matches!(p.instructions[8], CoreInstruction::Lui { rt: 1, imm: 0xFFFF }));
    assert!(matches!(p.instructions[9], CoreInstruction::Ori { rt: 14, rs: 1, imm: 0x63C0 }));
    assert_eq!(p.line_numbers, vec![1, 1, 2, 3, 4, 5, 6, 6, 7, 7]);
    let mut cpu = loaded("li $t0, 4294967295\nli $t6, -40000\nli $t5, 65536\n");
    assert!(cpu.run().is_ok());
    assert_eq!(cpu.get_reg("$t0"), 0xFFFF_FFFF);
    assert_eq!(cpu.get_reg("$t6"), (-40000i32) as u32);
    assert_eq!(cpu.get_reg("$t5"), 65536);
}

#[test]
fn reads_leave_unwritten_pages_absent() {
    let mut mem = Memory::new();
    let pages = mem.pages.len();
    assert_eq!(mem.load_word(0x2000_0000), 0);
    assert_eq!(mem.load_byte(0x2000_0201), 0);
    assert_eq!(mem.load_halfword(0x2000_0402), 0);
    assert_eq!(mem.get_memory_slice(0x2000_0600, 4), vec![0, 0, 0, 0]);
    assert_eq!(mem.pages.len(), pages);
    mem.set_byte(0x2000_0000, 1);
    assert_eq!(mem.pages.len(), pages + 1);
}
