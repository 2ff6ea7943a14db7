use vstd::prelude::*;
use crate::instruction::{
    copy_core, copy_label, core_view, lemma_core_regs_valid, pseudo_view, CoreInstruction,
    InsnView, Instruction, PseudoInstruction, REG_AT, REG_ZERO,
};
use crate::lexer::Op;
use crate::memory::{Memory, DEFAULT_TEXT_BASE_ADDRESS};
use crate::parser::{
    parse_result, regs_ok, stmt_ok, stmt_view, stmts_view, ParseError, Parser, ProgramStatement,
    StmtView,
};
use crate::program::{find_symbol, symbol_lookup, symbols_view, EmuError, Symbols, MAX_INSTRUCTIONS};

verus! {

/// `li` becomes a single `addi` when its value fits 16 signed bits.
pub open spec fn li_fits_signed(v: int) -> bool {
    -0x8000 <= v <= 0x7FFF
}

/// Otherwise `li` becomes a single `ori` when its value fits 16 unsigned bits.
pub open spec fn li_fits_unsigned(v: int) -> bool {
    0 <= v <= 0xFFFF
}

/// How many core instructions `iv` becomes.
pub open spec fn insn_size(iv: InsnView) -> nat {
    match iv.op {
        Op::La | Op::Blt | Op::Bgt | Op::Ble | Op::Bge => 2,
        Op::Li => if li_fits_signed(iv.imm) || li_fits_unsigned(iv.imm) {
            1
        } else {
            2
        },
        _ => 1,
    }
}

/// How many core instructions the statements become.
pub open spec fn text_size(stmts: Seq<StmtView>) -> nat
    decreases stmts.len(),
{
    if stmts.len() == 0 {
        0
    } else {
        match stmts[0] {
            StmtView::Insn(iv) => insn_size(iv) + text_size(stmts.drop_first()),
            StmtView::Label(_) => text_size(stmts.drop_first()),
        }
    }
}

/// The text labels and their addresses, the first statement being the
/// `idx`-th core instruction.
pub open spec fn text_labels(stmts: Seq<StmtView>, idx: int) -> Symbols
    decreases stmts.len(),
{
    if stmts.len() == 0 {
        Seq::empty()
    } else {
        match stmts[0] {
            StmtView::Insn(iv) => text_labels(stmts.drop_first(), idx + insn_size(iv)),
            StmtView::Label(n) => seq![(n, (DEFAULT_TEXT_BASE_ADDRESS + 4 * idx) as u32)]
                + text_labels(stmts.drop_first(), idx),
        }
    }
}

/// The symbol table with each text label at its address.
pub open spec fn final_symbols(stmts: Seq<StmtView>, syms: Symbols) -> Symbols {
    syms.map_values(
        |e: (Seq<char>, u32)|
            match symbol_lookup(text_labels(stmts, 0), e.0) {
                Some(a) => (e.0, a),
                None => e,
            },
    )
}

pub open spec fn core_insn(op: Op, regs: Seq<u8>, imm: int, label: Seq<char>) -> InsnView {
    InsnView { op, regs, imm, label }
}

/// The core instructions that `iv` becomes; `$at` is the scratch register.
pub open spec fn expand(iv: InsnView, syms: Symbols) -> Seq<InsnView> {
    let r = iv.regs;
    let at = REG_AT;
    let zero = REG_ZERO;
    match iv.op {
        Op::Li => {
            let v = iv.imm;
            // the 32-bit pattern of the value
            let w = v % 0x1_0000_0000;
            if li_fits_signed(v) {
                seq![core_insn(Op::Addi, seq![r[0], zero], v, Seq::empty())]
            } else if li_fits_unsigned(v) {
                seq![core_insn(Op::Ori, seq![r[0], zero], v, Seq::empty())]
            } else {
                seq![
                    core_insn(Op::Lui, seq![at], w / 0x1_0000, Seq::empty()),
                    core_insn(Op::Ori, seq![r[0], at], w % 0x1_0000, Seq::empty()),
                ]
            }
        },
        Op::La => {
            let a: int = match symbol_lookup(syms, iv.label) {
                Some(a) => a as int,
                None => 0,
            };
            seq![
                core_insn(Op::Lui, seq![at], a / 0x1_0000, Seq::empty()),
                core_insn(Op::Ori, seq![r[0], at], a % 0x1_0000, Seq::empty()),
            ]
        },
        Op::Move => seq![core_insn(Op::Addu, seq![r[0], r[1], zero], 0, Seq::empty())],
        Op::Blt => seq![
            core_insn(Op::Slt, seq![at, r[0], r[1]], 0, Seq::empty()),
            core_insn(Op::Bne, seq![at, zero], 0, iv.label),
        ],
        Op::Bgt => seq![
            core_insn(Op::Slt, seq![at, r[1], r[0]], 0, Seq::empty()),
            core_insn(Op::Bne, seq![at, zero], 0, iv.label),
        ],
        Op::Ble => seq![
            core_insn(Op::Slt, seq![at, r[1], r[0]], 0, Seq::empty()),
            core_insn(Op::Beq, seq![at, zero], 0, iv.label),
        ],
        Op::Bge => seq![
            core_insn(Op::Slt, seq![at, r[0], r[1]], 0, Seq::empty()),
            core_insn(Op::Beq, seq![at, zero], 0, iv.label),
        ],
        _ => seq![iv],
    }
}

pub open spec fn line_of(lines: Seq<usize>, li: int) -> usize {
    if 0 <= li < lines.len() {
        lines[li]
    } else {
        0
    }
}

/// The core instructions and their source lines, the first instruction
/// statement having line `lines[li]`.
pub open spec fn emit(stmts: Seq<StmtView>, syms: Symbols, lines: Seq<usize>, li: int) -> (
    Seq<InsnView>,
    Seq<usize>,
)
    decreases stmts.len(),
{
    if stmts.len() == 0 {
        (Seq::empty(), Seq::empty())
    } else {
        match stmts[0] {
            StmtView::Label(_) => emit(stmts.drop_first(), syms, lines, li),
            StmtView::Insn(iv) => {
                let e = expand(iv, syms);
                let rest = emit(stmts.drop_first(), syms, lines, li + 1);
                (e + rest.0, Seq::new(e.len(), |k: int| line_of(lines, li)) + rest.1)
            },
        }
    }
}

/// The assembled program: core instructions, final symbol table and source
/// lines; a text segment too large for the address space is refused.
pub open spec fn assemble_result(stmts: Seq<StmtView>, syms: Symbols, lines: Seq<usize>) -> Result<
    (Seq<InsnView>, Symbols, Seq<usize>),
    EmuError,
> {
    if text_size(stmts) > MAX_INSTRUCTIONS {
        Err(EmuError::ParsingError(0))
    } else {
        let fs = final_symbols(stmts, syms);
        let (insns, ls) = emit(stmts, fs, lines, 0);
        Ok((insns, fs, ls))
    }
}

pub open spec fn core_views(v: Seq<CoreInstruction>) -> Seq<InsnView> {
    v.map_values(|c: CoreInstruction| core_view(c))
}

proof fn lemma_emit_lengths(stmts: Seq<StmtView>, syms: Symbols, lines: Seq<usize>, li: int)
    ensures
        emit(stmts, syms, lines, li).0.len() == text_size(stmts),
        emit(stmts, syms, lines, li).1.len() == text_size(stmts),
    decreases stmts.len(),
{
    if stmts.len() > 0 {
        match stmts[0] {
            StmtView::Label(_) => lemma_emit_lengths(stmts.drop_first(), syms, lines, li),
            StmtView::Insn(iv) => lemma_emit_lengths(stmts.drop_first(), syms, lines, li + 1),
        }
    }
}

fn insn_size_of(i: &Instruction) -> (r: u64)
    ensures
        r == insn_size(crate::instruction::insn_view(*i)),
{
    match i {
        Instruction::Core(_) => 1,
        Instruction::Pseudo(p) => match p {
            PseudoInstruction::Li { imm, .. } => if -0x8000 <= *imm && *imm <= 0xFFFF {
                1
            } else {
                2
            },
            PseudoInstruction::Move { .. } => 1,
            _ => 2,
        },
    }
}

#[verifier::rlimit(30)]
fn expand_li(p: &PseudoInstruction, syms: &Vec<(Vec<char>, u32)>) -> (r: Vec<CoreInstruction>)
    requires
        p is Li,
        crate::instruction::imm_in_field(pseudo_view(*p).op, pseudo_view(*p).imm),
        regs_ok(pseudo_view(*p).regs),
    ensures
        core_views(r@) == expand(pseudo_view(*p), symbols_view(syms@)),
        forall|k: int| 0 <= k < r@.len() ==> #[trigger] r@[k].regs_valid(),
{
    let (rd, v) = match p {
        PseudoInstruction::Li { rd, imm } => (*rd, *imm),
        _ => (0, 0),
    };
    assert(pseudo_view(*p).regs[0] == rd);
    if -0x8000 <= v && v <= 0x7FFF {
        let r = vec![CoreInstruction::Addi { rt: rd, rs: REG_ZERO, imm: v as i32 }];
        assert(core_views(r@) =~= expand(pseudo_view(*p), symbols_view(syms@)));
        r
    } else if 0 <= v && v <= 0xFFFF {
        let r = vec![CoreInstruction::Ori { rt: rd, rs: REG_ZERO, imm: v as u32 }];
        assert(core_views(r@) =~= expand(pseudo_view(*p), symbols_view(syms@)));
        r
    } else {
        // the literal lies in -2^31 .. 2^32 - 1; its 32-bit pattern
        let w: u32 = if v < 0 { (v + 0x1_0000_0000) as u32 } else { v as u32 };
        assert(w as int == v % 0x1_0000_0000);
        let r = vec![
            CoreInstruction::Lui { rt: REG_AT, imm: w / 0x1_0000 },
            CoreInstruction::Ori { rt: rd, rs: REG_AT, imm: w % 0x1_0000 },
        ];
        assert(core_views(r@) =~= expand(pseudo_view(*p), symbols_view(syms@)));
        r
    }
}

#[verifier::rlimit(30)]
fn expand_la(p: &PseudoInstruction, syms: &Vec<(Vec<char>, u32)>) -> (r: Vec<CoreInstruction>)
    requires
        p is La,
        regs_ok(pseudo_view(*p).regs),
    ensures
        core_views(r@) == expand(pseudo_view(*p), symbols_view(syms@)),
        forall|k: int| 0 <= k < r@.len() ==> #[trigger] r@[k].regs_valid(),
{
    match p {
        PseudoInstruction::La { rt, label } => {
            assert(pseudo_view(*p).regs[0] == *rt);
            let a: u32 = match find_symbol(syms, label.as_slice()) {
                Some(a) => a,
                None => 0,
            };
            let v = vec![
                CoreInstruction::Lui { rt: REG_AT, imm: a / 0x1_0000 },
                CoreInstruction::Ori { rt: *rt, rs: REG_AT, imm: a % 0x1_0000 },
            ];
            assert(core_views(v@) =~= expand(pseudo_view(*p), symbols_view(syms@)));
            v
        },
        _ => Vec::new(),
    }
}

#[verifier::rlimit(30)]
fn expand_branch(p: &PseudoInstruction, syms: &Vec<(Vec<char>, u32)>) -> (r: Vec<CoreInstruction>)
    requires
        p is Blt || p is Bgt || p is Ble || p is Bge,
        regs_ok(pseudo_view(*p).regs),
    ensures
        core_views(r@) == expand(pseudo_view(*p), symbols_view(syms@)),
        forall|k: int| 0 <= k < r@.len() ==> #[trigger] r@[k].regs_valid(),
{
    let (rs, rt, label, swap, on_equal) = match p {
        PseudoInstruction::Blt { rs, rt, label } => (*rs, *rt, label, false, false),
        PseudoInstruction::Bgt { rs, rt, label } => (*rs, *rt, label, true, false),
        PseudoInstruction::Ble { rs, rt, label } => (*rs, *rt, label, true, true),
        PseudoInstruction::Bge { rs, rt, label } => (*rs, *rt, label, false, true),
        _ => return Vec::new(),
    };
    assert(pseudo_view(*p).regs[0] == rs);
    assert(pseudo_view(*p).regs[1] == rt);
    assert(pseudo_view(*p).label == label@);
    let cmp = if swap {
        CoreInstruction::Slt { rd: REG_AT, rs: rt, rt: rs }
    } else {
        CoreInstruction::Slt { rd: REG_AT, rs: rs, rt: rt }
    };
    let jump = if on_equal {
        CoreInstruction::Beq { rs: REG_AT, rt: REG_ZERO, label: copy_label(label) }
    } else {
        CoreInstruction::Bne { rs: REG_AT, rt: REG_ZERO, label: copy_label(label) }
    };
    let v = vec![cmp, jump];
    assert(core_views(v@) =~= expand(pseudo_view(*p), symbols_view(syms@)));
    v
}

/// The core instructions that pseudo-instruction `p` becomes.
fn expand_pseudo(p: &PseudoInstruction, syms: &Vec<(Vec<char>, u32)>) -> (r: Vec<CoreInstruction>)
    requires
        regs_ok(pseudo_view(*p).regs),
        crate::instruction::imm_in_field(pseudo_view(*p).op, pseudo_view(*p).imm),
    ensures
        core_views(r@) == expand(pseudo_view(*p), symbols_view(syms@)),
        forall|k: int| 0 <= k < r@.len() ==> #[trigger] r@[k].regs_valid(),
{
    match p {
        PseudoInstruction::Li { .. } => expand_li(p, syms),
        PseudoInstruction::La { .. } => expand_la(p, syms),
        PseudoInstruction::Move { rd, rs } => {
            assert(pseudo_view(*p).regs[0] == *rd);
            assert(pseudo_view(*p).regs[1] == *rs);
            let v = vec![CoreInstruction::Addu { rd: *rd, rs: *rs, rt: REG_ZERO }];
            assert(core_views(v@) =~= expand(pseudo_view(*p), symbols_view(syms@)));
            v
        },
        _ => expand_branch(p, syms),
    }
}

/// The core instructions that `i` becomes.
fn lower(i: &Instruction, table: &Vec<(Vec<char>, u32)>) -> (r: Vec<CoreInstruction>)
    requires
        regs_ok(crate::instruction::insn_view(*i).regs),
        crate::instruction::imm_in_field(crate::instruction::insn_view(*i).op, crate::instruction::insn_view(*i).imm),
    ensures
        core_views(r@) == expand(crate::instruction::insn_view(*i), symbols_view(table@)),
        forall|k: int| 0 <= k < r@.len() ==> #[trigger] r@[k].regs_valid(),
{
    match i {
        Instruction::Core(c) => {
            proof {
                lemma_core_regs_valid(*c);
            }
            let v = vec![copy_core(c)];
            assert(core_views(v@) =~= expand(crate::instruction::insn_view(*i), symbols_view(table@)));
            v
        },
        Instruction::Pseudo(p) => expand_pseudo(p, table),
    }
}

/// Some entry of `syms` is named `n`.
pub open spec fn has_name(syms: Symbols, n: Seq<char>) -> bool {
    exists|i: int| 0 <= i < syms.len() && #[trigger] syms[i].0 == n
}

proof fn lemma_lookup_has_name(syms: Symbols, n: Seq<char>)
    ensures
        symbol_lookup(syms, n) is Some <==> has_name(syms, n),
    decreases syms.len(),
{
    if syms.len() > 0 {
        lemma_lookup_has_name(syms.drop_first(), n);
        if has_name(syms, n) && syms[0].0 != n {
            let i = choose|i: int| 0 <= i < syms.len() && #[trigger] syms[i].0 == n;
            assert(syms.drop_first()[i - 1].0 == n);
        }
        if has_name(syms.drop_first(), n) {
            let i = choose|i: int| 0 <= i < syms.drop_first().len() && #[trigger] syms.drop_first()[i].0 == n;
            assert(syms[i + 1].0 == n);
        }
    }
}

proof fn lemma_push_unique(syms: Symbols, e: (Seq<char>, u32))
    requires
        crate::program::names_unique(syms),
        symbol_lookup(syms, e.0) is None,
    ensures
        crate::program::names_unique(syms.push(e)),
{
    lemma_lookup_has_name(syms, e.0);
    let s2 = syms.push(e);
    assert forall|i: int, j: int| 0 <= i < s2.len() && 0 <= j < s2.len() && i != j implies #[trigger] s2[i].0 != #[trigger] s2[j].0 by {
        if i == syms.len() {
            assert(syms[j].0 != e.0);
        } else if j == syms.len() {
            assert(syms[i].0 != e.0);
        }
    }
}

proof fn lemma_int_values_keep(st: crate::parser::PState, d: crate::lexer::Directive, vs: Seq<crate::lexer::TokenView>, line: usize)
    requires
        crate::parser::int_values(st, d, vs, line) is Ok,
    ensures
        crate::parser::int_values(st, d, vs, line)->Ok_0.syms == st.syms,
        crate::parser::int_values(st, d, vs, line)->Ok_0.stmts == st.stmts,
    decreases vs.len(),
{
    if vs.len() >= 2 && vs[0].0 == crate::lexer::TokenType::Integer {
        match crate::parser::int_of_text(vs[0].1) {
            Some(v) => {
                let st2 = crate::parser::PState {
                    mem: crate::parser::store_value(st.mem, d, st.ptr as u32, v),
                    ptr: st.ptr + crate::parser::width_of(d),
                    ..st
                };
                if crate::parser::value_fits(d, v) && st.ptr + crate::parser::width_of(d) <= 0x1_0000_0000
                    && vs[1].0 == crate::lexer::TokenType::Delimiter {
                    lemma_int_values_keep(st2, d, vs.subrange(2, vs.len() as int), line);
                }
            },
            None => {},
        }
    }
}

proof fn lemma_line_unique(st: crate::parser::PState, ts: Seq<crate::lexer::TokenView>, line: usize)
    requires
        crate::program::names_unique(st.syms),
        crate::parser::parse_line(st, ts, line) is Ok,
    ensures
        crate::program::names_unique(crate::parser::parse_line(st, ts, line)->Ok_0.syms),
{
    let r = crate::parser::parse_line(st, ts, line)->Ok_0;
    if ts.len() > 0 && !(ts[0].0 == crate::lexer::TokenType::Directive && (crate::lexer::directive_of_text(ts[0].1) == Some(crate::lexer::Directive::Data) || crate::lexer::directive_of_text(ts[0].1) == Some(crate::lexer::Directive::Text))) {
        if st.data {
            let d = crate::lexer::directive_of_text(ts[2].1)->0;
            let a = crate::parser::align_up(st.ptr, crate::parser::align_of(d));
            let st2 = crate::parser::PState { syms: st.syms.push((ts[0].1, a as u32)), ptr: a, ..st };
            lemma_push_unique(st.syms, (ts[0].1, a as u32));
            let vs = ts.subrange(3, ts.len() as int);
            if d == crate::lexer::Directive::Byte || d == crate::lexer::Directive::Half || d == crate::lexer::Directive::Word {
                lemma_int_values_keep(st2, d, vs, line);
            }
        } else if ts[0].0 != crate::lexer::TokenType::Mnemonic {
            lemma_push_unique(st.syms, (ts[0].1, 0u32));
        }
    }
}

proof fn lemma_parse_unique(ts: Seq<crate::lexer::TokenView>, i: int, st: crate::parser::PState)
    requires
        crate::program::names_unique(st.syms),
        crate::parser::parse_from(ts, i, st) is Ok,
    ensures
        crate::program::names_unique(crate::parser::parse_from(ts, i, st)->Ok_0.syms),
    decreases ts.len() - i,
{
    if 0 <= i < ts.len() {
        let j = crate::parser::line_run(ts, i, i + 1);
        if i < j <= ts.len() {
            let lt = crate::parser::drop_comments(ts.subrange(i, j));
            let line = ts[i].2 as usize;
            lemma_line_unique(st, lt, line);
            lemma_parse_unique(ts, j, crate::parser::parse_line(st, lt, line)->Ok_0);
        }
    }
}

proof fn lemma_final_names(stmts: Seq<StmtView>, syms: Symbols)
    ensures
        final_symbols(stmts, syms).len() == syms.len(),
        forall|i: int| 0 <= i < syms.len() ==> #[trigger] final_symbols(stmts, syms)[i].0 == syms[i].0,
{
}

proof fn lemma_defined(stmts: Seq<StmtView>, syms: Symbols, k: int)
    requires
        first_undefined_none(stmts, syms),
        0 <= k < stmts.len(),
        stmts[k] matches StmtView::Insn(iv) && op_has_label_view(iv),
    ensures
        stmts[k] matches StmtView::Insn(iv) && symbol_lookup(syms, iv.label) is Some,
    decreases stmts.len(),
{
    if k > 0 {
        lemma_defined(stmts.drop_first(), syms, k - 1);
    }
}

pub open spec fn first_undefined_none(stmts: Seq<StmtView>, syms: Symbols) -> bool {
    crate::parser::first_undefined(stmts, syms) is None
}

pub open spec fn op_has_label_view(iv: InsnView) -> bool {
    crate::instruction::op_has_label(iv.op)
}

/// Some instruction statement with a target names `label`.
pub open spec fn named_by_statement(stmts: Seq<StmtView>, label: Seq<char>) -> bool {
    exists|k: int| 0 <= k < stmts.len() && (#[trigger] stmts[k] matches StmtView::Insn(iv) && op_has_label_view(iv) && iv.label == label)
}

proof fn lemma_emit_targets(stmts: Seq<StmtView>, syms: Symbols, lines: Seq<usize>, li: int, j: int)
    requires
        0 <= j < emit(stmts, syms, lines, li).0.len(),
        op_has_label_view(emit(stmts, syms, lines, li).0[j]),
    ensures
        named_by_statement(stmts, emit(stmts, syms, lines, li).0[j].label),
    decreases stmts.len(),
{
    let out = emit(stmts, syms, lines, li).0;
    if stmts.len() > 0 {
        match stmts[0] {
            StmtView::Label(_) => {
                lemma_emit_targets(stmts.drop_first(), syms, lines, li, j);
                let k = choose|k: int| 0 <= k < stmts.drop_first().len() && (#[trigger] stmts.drop_first()[k] matches StmtView::Insn(iv) && op_has_label_view(iv) && iv.label == out[j].label);
                assert(stmts[k + 1] == stmts.drop_first()[k]);
            },
            StmtView::Insn(iv) => {
                let e = expand(iv, syms);
                if j < e.len() {
                    assert(out[j] == e[j]);
                    assert(op_has_label_view(iv) && e[j].label == iv.label);
                    assert(stmts[0] matches StmtView::Insn(v) && op_has_label_view(v) && v.label == out[j].label);
                } else {
                    let rest = emit(stmts.drop_first(), syms, lines, li + 1).0;
                    assert(out[j] == rest[j - e.len()]);
                    lemma_emit_targets(stmts.drop_first(), syms, lines, li + 1, j - e.len());
                    let k = choose|k: int| 0 <= k < stmts.drop_first().len() && (#[trigger] stmts.drop_first()[k] matches StmtView::Insn(v) && op_has_label_view(v) && v.label == out[j].label);
                    assert(stmts[k + 1] == stmts.drop_first()[k]);
                }
            },
        }
    }
}

/// An assembled program's symbol table names each label once, and holds
/// every label that one of its jumps or branches names.
pub proof fn lemma_symbols_sound(code: Seq<char>, mem: crate::memory::MemView)
    requires
        assembled(code, mem) is Ok,
    ensures
        crate::program::names_unique(assembled(code, mem)->Ok_0.1),
        forall|j: int| 0 <= j < assembled(code, mem)->Ok_0.0.len() && op_has_label_view(#[trigger] assembled(code, mem)->Ok_0.0[j])
            ==> symbol_lookup(assembled(code, mem)->Ok_0.1, assembled(code, mem)->Ok_0.0[j].label) is Some,
{
    let ts = crate::lexer::lex(code);
    let init = crate::parser::initial_state(mem);
    let st = crate::parser::parse_from(ts, 0, init)->Ok_0;
    lemma_parse_unique(ts, 0, init);
    let fs = final_symbols(st.stmts, st.syms);
    lemma_final_names(st.stmts, st.syms);
    let r = assembled(code, mem)->Ok_0;
    assert(r.1 == fs);
    assert(crate::program::names_unique(fs)) by {
        assert forall|i: int, j: int| 0 <= i < fs.len() && 0 <= j < fs.len() && i != j implies #[trigger] fs[i].0 != #[trigger] fs[j].0 by {
            assert(st.syms[i].0 != st.syms[j].0);
        }
    }
    assert forall|j: int| 0 <= j < r.0.len() && op_has_label_view(#[trigger] r.0[j]) implies symbol_lookup(r.1, r.0[j].label) is Some by {
        lemma_emit_targets(st.stmts, fs, st.lines, 0, j);
        let k = choose|k: int| 0 <= k < st.stmts.len() && (#[trigger] st.stmts[k] matches StmtView::Insn(iv) && op_has_label_view(iv) && iv.label == r.0[j].label);
        lemma_defined(st.stmts, st.syms, k);
        lemma_lookup_has_name(st.syms, r.0[j].label);
        let i = choose|i: int| 0 <= i < st.syms.len() && #[trigger] st.syms[i].0 == r.0[j].label;
        assert(fs[i].0 == r.0[j].label);
        lemma_lookup_has_name(fs, r.0[j].label);
    }
}

/// A source whose lines all parse but whose jumps, branches or `la` name a
/// label it never declares is refused with that label.
pub proof fn lemma_undefined_label_refused(code: Seq<char>, mem: crate::memory::MemView)
    requires
        crate::parser::parse_from(crate::lexer::lex(code), 0, crate::parser::initial_state(mem)) is Ok,
        crate::parser::names_missing(
            crate::parser::parse_from(crate::lexer::lex(code), 0, crate::parser::initial_state(mem))->Ok_0.stmts,
            crate::parser::parse_from(crate::lexer::lex(code), 0, crate::parser::initial_state(mem))->Ok_0.syms,
        ),
    ensures
        assembled(code, mem) matches Err(ParseError::Undefined(l)) && symbol_lookup(
            crate::parser::parse_from(crate::lexer::lex(code), 0, crate::parser::initial_state(mem))->Ok_0.syms,
            l,
        ) is None,
{
    let st = crate::parser::parse_from(crate::lexer::lex(code), 0, crate::parser::initial_state(mem))->Ok_0;
    crate::parser::lemma_first_undefined_found(st.stmts, st.syms);
}

/// Lowers the parser's statements into core instructions and places the text labels.
pub struct Assembler {
    pub parser: Parser,
}

/// What assembling `code` into memory `mem` yields.
pub open spec fn assembled(code: Seq<char>, mem: crate::memory::MemView) -> Result<
    (Seq<InsnView>, Symbols, Seq<usize>, crate::memory::MemView),
    ParseError,
> {
    match parse_result(crate::lexer::lex(code), mem) {
        Err(e) => Err(e),
        Ok(st) => match assemble_result(st.stmts, st.syms, st.lines) {
            Err(e) => Err(ParseError::At(e)),
            Ok((insns, syms, lines)) => Ok((insns, syms, lines, st.mem)),
        },
    }
}

impl Assembler {
    pub fn new() -> (r: Self)
        ensures
            r.parser.wf(),
    {
        Assembler { parser: Parser::new() }
    }

    /// Parses `code` (writing its data into `memory`), then lowers the
    /// pseudo-instructions and fills in the text labels' addresses.
    #[verifier::rlimit(60)]
    pub fn assemble(&mut self, code: &str, memory: &mut Memory) -> (r: Result<
        (Vec<CoreInstruction>, Vec<(Vec<char>, u32)>, Vec<usize>),
        EmuError,
    >)
        requires
            old(memory).wf(),
            code@.len() < usize::MAX,
        ensures
            final(memory).wf(),
            match assembled(code@, old(memory)@) {
                Ok((insns, syms, lines, mem)) => r is Ok && core_views(r->Ok_0.0@) == insns
                    && symbols_view(r->Ok_0.1@) == syms && r->Ok_0.2@ == lines && final(memory)@ == mem
                    && r->Ok_0.0@.len() <= MAX_INSTRUCTIONS && r->Ok_0.2@.len() == r->Ok_0.0@.len()
                    && forall|k: int| 0 <= k < r->Ok_0.0@.len() ==> #[trigger] r->Ok_0.0@[k].regs_valid(),
                Err(ParseError::At(e)) => r == Err::<(Vec<CoreInstruction>, Vec<(Vec<char>, u32)>, Vec<usize>), EmuError>(e),
                Err(ParseError::Undefined(l)) => r is Err && (r->Err_0 matches EmuError::UndefinedLabel(x) && x@ == l),
            },
    {
        let (stmts, syms, lines) = match self.parser.parse_program(code, memory) {
            Ok(t) => t,
            Err(e) => return Err(e),
        };
        let ghost sv = stmts_view(stmts@);
        let ghost st = parse_result(crate::lexer::lex(code@), old(memory)@)->Ok_0;
        let n = stmts.len();
        // first pass: the size of the text segment and the address of each text label
        let mut labels: Vec<(Vec<char>, u32)> = Vec::new();
        let mut idx: u64 = 0;
        let mut k: usize = 0;
        assert(sv.subrange(0, n as int) =~= sv);
        while k < n
            invariant
                k <= n,
                n == stmts@.len(),
                sv == stmts_view(stmts@),
                memory.wf(),
                parse_result(crate::lexer::lex(code@), old(memory)@) == Ok::<crate::parser::PState, ParseError>(st),
                sv == st.stmts,
                symbols_view(syms@) == st.syms,
                lines@ == st.lines,
                memory@ == st.mem,
                idx <= MAX_INSTRUCTIONS,
                text_size(sv) == idx + text_size(sv.subrange(k as int, n as int)),
                text_labels(sv, 0) == symbols_view(labels@) + text_labels(sv.subrange(k as int, n as int), idx as int),
            decreases n - k,
        {
            let ghost rest = sv.subrange(k as int, n as int);
            proof {
                assert(rest.drop_first() =~= sv.subrange(k + 1, n as int));
                assert(rest[0] == stmt_view(stmts@[k as int]));
            }
            match &stmts[k] {
                ProgramStatement::Label(l) => {
                    let ghost before = labels@;
                    let address = DEFAULT_TEXT_BASE_ADDRESS + 4 * (idx as u32);
                    labels.push((copy_label(&l.name), address));
                    proof {
                        assert(symbols_view(labels@) =~= symbols_view(before) + seq![(l.name@, address)]);
                        assert(symbols_view(labels@) + text_labels(sv.subrange(k + 1, n as int), idx as int)
                            =~= symbols_view(before) + text_labels(rest, idx as int));
                    }
                },
                ProgramStatement::Instruction(i) => {
                    idx = idx + insn_size_of(i);
                    if idx > MAX_INSTRUCTIONS as u64 {
                        return Err(EmuError::ParsingError(0));
                    }
                },
            }
            k += 1;
        }
        proof {
            assert(sv.subrange(n as int, n as int) =~= Seq::<StmtView>::empty());
            assert(symbols_view(labels@) + Seq::<(Seq<char>, u32)>::empty() =~= symbols_view(labels@));
        }
        // the symbol table with the text labels placed
        let ghost fs = final_symbols(sv, symbols_view(syms@));
        let mut table: Vec<(Vec<char>, u32)> = Vec::new();
        let mut j: usize = 0;
        while j < syms.len()
            invariant
                memory.wf(),
                parse_result(crate::lexer::lex(code@), old(memory)@) == Ok::<crate::parser::PState, ParseError>(st),
                sv == st.stmts,
                symbols_view(syms@) == st.syms,
                lines@ == st.lines,
                memory@ == st.mem,
                text_size(sv) <= MAX_INSTRUCTIONS,
                j <= syms@.len(),
                fs == final_symbols(sv, symbols_view(syms@)),
                text_labels(sv, 0) == symbols_view(labels@),
                symbols_view(table@) == fs.subrange(0, j as int),
            decreases syms@.len() - j,
        {
            let address = match find_symbol(&labels, syms[j].0.as_slice()) {
                Some(a) => a,
                None => syms[j].1,
            };
            let ghost before = table@;
            let name = copy_label(&syms[j].0);
            proof {
                assert(symbols_view(syms@)[j as int] == (syms@[j as int].0@, syms@[j as int].1));
                assert(fs[j as int] == (name@, address));
            }
            table.push((name, address));
            proof {
                assert(symbols_view(table@) =~= symbols_view(before).push((name@, address)));
                assert(symbols_view(table@) =~= fs.subrange(0, j + 1));
            }
            j += 1;
        }
        assert(fs.subrange(0, j as int) =~= fs);
        // second pass: emit core instructions and their lines
        let ghost total = emit(sv, fs, lines@, 0);
        let mut out: Vec<CoreInstruction> = Vec::new();
        let mut out_lines: Vec<usize> = Vec::new();
        let mut li: usize = 0;
        let mut k: usize = 0;
        while k < n
            invariant
                k <= n,
                n == stmts@.len(),
                sv == stmts_view(stmts@),
                fs == symbols_view(table@),
                memory.wf(),
                parse_result(crate::lexer::lex(code@), old(memory)@) == Ok::<crate::parser::PState, ParseError>(st),
                sv == st.stmts,
                symbols_view(syms@) == st.syms,
                lines@ == st.lines,
                memory@ == st.mem,
                text_size(sv) <= MAX_INSTRUCTIONS,
                fs == final_symbols(sv, symbols_view(syms@)),
                li <= k,
                total == emit(sv, fs, lines@, 0),
                total.0 == core_views(out@) + emit(sv.subrange(k as int, n as int), fs, lines@, li as int).0,
                total.1 == out_lines@ + emit(sv.subrange(k as int, n as int), fs, lines@, li as int).1,
                forall|q: int| 0 <= q < stmts@.len() ==> #[trigger] stmt_ok(stmts@[q]),
                forall|q: int| 0 <= q < out@.len() ==> #[trigger] out@[q].regs_valid(),
            decreases n - k,
        {
            let ghost rest = sv.subrange(k as int, n as int);
            proof {
                assert(rest.drop_first() =~= sv.subrange(k + 1, n as int));
                assert(rest[0] == stmt_view(stmts@[k as int]));
                assert(stmt_ok(stmts@[k as int]));
            }
            match &stmts[k] {
                ProgramStatement::Label(_) => {},
                ProgramStatement::Instruction(i) => {
                    let line = if li < lines.len() { lines[li] } else { 0 };
                    let mut produced = lower(i, &table);
                    let count = produced.len();
                    let ghost before = out@;
                    let ghost made = produced@;
                    let ghost before_lines = out_lines@;
                    out.append(&mut produced);
                    let mut q: usize = 0;
                    while q < count
                        invariant
                            q <= count,
                            out_lines@ == before_lines + Seq::new(q as nat, |z: int| line),
                        decreases count - q,
                    {
                        out_lines.push(line);
                        q += 1;
                        assert(out_lines@ =~= before_lines + Seq::new(q as nat, |z: int| line));
                    }
                    proof {
                        assert(core_views(out@) =~= core_views(before) + core_views(made));
                        assert(line == line_of(lines@, li as int));
                        assert(Seq::new(q as nat, |z: int| line) =~= Seq::new(expand(crate::instruction::insn_view(*i), fs).len(), |z: int| line_of(lines@, li as int)));
                        assert forall|z: int| 0 <= z < out@.len() implies #[trigger] out@[z].regs_valid() by {
                            if z >= before.len() {
                                assert(out@[z] == made[z - before.len()]);
                            }
                        }
                    }
                    li += 1;
                },
            }
            k += 1;
        }
        proof {
            assert(sv.subrange(n as int, n as int) =~= Seq::<StmtView>::empty());
            assert(core_views(out@) + Seq::<InsnView>::empty() =~= core_views(out@));
            assert(out_lines@ + Seq::<usize>::empty() =~= out_lines@);
            lemma_emit_lengths(sv, fs, lines@, 0);
        }
        Ok((out, table, out_lines))
    }
}

} // verus!
