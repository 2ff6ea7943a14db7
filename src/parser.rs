use vstd::prelude::*;
use crate::instruction::{
    build_instruction, copy_label, imm_in_field, insn_view, op_has_imm, op_has_label,
    op_reg_count, reg_of_name, register_id, InsnView, Instruction, Reg,
};
use crate::lexer::{
    directive_lookup, directive_of_text, is_digit, is_hex, op_lookup, op_of_text,
    tokens_view, Directive, Lexer, Op, Token, TokenType, TokenView,
};
use crate::memory::{MemView, Memory, DEFAULT_STATIC_DATA_BASE_ADDRESS};
use vstd::utf8::{encode_scalar, encode_utf8};
use crate::program::{find_symbol, symbol_lookup, symbols_view, EmuError, Symbols};

verus! {

/// A label declared in the text section.
#[derive(Debug, Clone)]
pub struct Label {
    pub name: Vec<char>,
}

/// One statement of the text section, in source order.
#[derive(Debug, Clone)]
pub enum ProgramStatement {
    Instruction(Instruction),
    Label(Label),
}

pub enum StmtView {
    Insn(InsnView),
    Label(Seq<char>),
}

pub open spec fn stmt_view(s: ProgramStatement) -> StmtView {
    match s {
        ProgramStatement::Instruction(i) => StmtView::Insn(insn_view(i)),
        ProgramStatement::Label(l) => StmtView::Label(l.name@),
    }
}

pub open spec fn stmts_view(v: Seq<ProgramStatement>) -> Seq<StmtView> {
    v.map_values(|s: ProgramStatement| stmt_view(s))
}

#[derive(Clone, Copy, Debug, PartialEq, Eq, Structural)]
pub enum Section {
    Text,
    Data,
}

/// What an instruction expects at each operand position.
#[derive(Clone, Copy, Debug, PartialEq, Eq, Structural)]
pub enum Slot {
    Reg,
    Comma,
    Imm,
    Label,
    LParen,
    RParen,
}

/// The operand grammar of each mnemonic.
pub open spec fn op_slots(op: Op) -> Seq<Slot> {
    match op {
        Op::Add | Op::Addu | Op::Sub | Op::Subu | Op::And | Op::Or | Op::Xor | Op::Nor | Op::Slt
        | Op::Sltu => seq![Slot::Reg, Slot::Comma, Slot::Reg, Slot::Comma, Slot::Reg],
        Op::Sll | Op::Srl | Op::Sra | Op::Addi | Op::Addiu | Op::Andi | Op::Ori | Op::Xori
        | Op::Slti | Op::Sltiu => seq![Slot::Reg, Slot::Comma, Slot::Reg, Slot::Comma, Slot::Imm],
        Op::Lui | Op::Li => seq![Slot::Reg, Slot::Comma, Slot::Imm],
        Op::Lw | Op::Sw | Op::Lb | Op::Sb | Op::Lh | Op::Sh => seq![
            Slot::Reg,
            Slot::Comma,
            Slot::Imm,
            Slot::LParen,
            Slot::Reg,
            Slot::RParen,
        ],
        Op::Beq | Op::Bne | Op::Blt | Op::Bgt | Op::Ble | Op::Bge => seq![
            Slot::Reg,
            Slot::Comma,
            Slot::Reg,
            Slot::Comma,
            Slot::Label,
        ],
        Op::J | Op::Jal => seq![Slot::Label],
        Op::Jr | Op::Mfhi | Op::Mflo => seq![Slot::Reg],
        Op::Mult | Op::Multu | Op::Div | Op::Divu | Op::Move => seq![Slot::Reg, Slot::Comma, Slot::Reg],
        Op::La => seq![Slot::Reg, Slot::Comma, Slot::Label],
    }
}

fn slots_of(op: Op) -> (r: Vec<Slot>)
    ensures
        r@ == op_slots(op),
{
    match op {
        Op::Add | Op::Addu | Op::Sub | Op::Subu | Op::And | Op::Or | Op::Xor | Op::Nor | Op::Slt
        | Op::Sltu => vec![Slot::Reg, Slot::Comma, Slot::Reg, Slot::Comma, Slot::Reg],
        Op::Sll | Op::Srl | Op::Sra | Op::Addi | Op::Addiu | Op::Andi | Op::Ori | Op::Xori
        | Op::Slti | Op::Sltiu => vec![Slot::Reg, Slot::Comma, Slot::Reg, Slot::Comma, Slot::Imm],
        Op::Lui | Op::Li => vec![Slot::Reg, Slot::Comma, Slot::Imm],
        Op::Lw | Op::Sw | Op::Lb | Op::Sb | Op::Lh | Op::Sh => vec![
            Slot::Reg,
            Slot::Comma,
            Slot::Imm,
            Slot::LParen,
            Slot::Reg,
            Slot::RParen,
        ],
        Op::Beq | Op::Bne | Op::Blt | Op::Bgt | Op::Ble | Op::Bge => vec![
            Slot::Reg,
            Slot::Comma,
            Slot::Reg,
            Slot::Comma,
            Slot::Label,
        ],
        Op::J | Op::Jal => vec![Slot::Label],
        Op::Jr | Op::Mfhi | Op::Mflo => vec![Slot::Reg],
        Op::Mult | Op::Multu | Op::Div | Op::Divu | Op::Move => vec![Slot::Reg, Slot::Comma, Slot::Reg],
        Op::La => vec![Slot::Reg, Slot::Comma, Slot::Label],
    }
}

/// A decimal numeral's value.
pub open spec fn dec_value(s: Seq<char>) -> int
    decreases s.len(),
{
    if s.len() == 0 {
        0
    } else {
        10 * dec_value(s.drop_last()) + (s.last() as int - '0' as int)
    }
}

pub open spec fn hex_digit_value(c: char) -> int {
    if is_digit(c) {
        c as int - '0' as int
    } else if 'a' <= c <= 'f' {
        c as int - 'a' as int + 10
    } else {
        c as int - 'A' as int + 10
    }
}

pub open spec fn hex_value(s: Seq<char>) -> int
    decreases s.len(),
{
    if s.len() == 0 {
        0
    } else {
        16 * hex_value(s.drop_last()) + hex_digit_value(s.last())
    }
}

pub open spec fn is_hex_literal(s: Seq<char>) -> bool {
    &&& s.len() >= 3
    &&& s[0] == '0'
    &&& (s[1] == 'x' || s[1] == 'X')
    &&& forall|i: int| 2 <= i < s.len() ==> is_hex(#[trigger] s[i])
}

/// The value of an unsigned numeral: `0x` and hex digits, or decimal digits.
pub open spec fn magnitude(s: Seq<char>) -> Option<int> {
    if is_hex_literal(s) {
        Some(hex_value(s.subrange(2, s.len() as int)))
    } else if s.len() >= 1 && forall|i: int| 0 <= i < s.len() ==> is_digit(#[trigger] s[i]) {
        Some(dec_value(s))
    } else {
        None
    }
}

/// The value of an integer literal, with an optional leading `-`.
pub open spec fn int_of_text(s: Seq<char>) -> Option<int> {
    if s.len() >= 1 && s[0] == '-' {
        match magnitude(s.drop_first()) {
            Some(m) => Some(-m),
            None => None,
        }
    } else {
        magnitude(s)
    }
}

/// Values beyond this are out of range of every operand.
pub const LITERAL_CAP: i64 = 0x100_0000_0000;

/// An integer literal as the parser reads it.
pub enum Literal {
    Value(i64),
    /// a well-formed literal whose magnitude exceeds `LITERAL_CAP`
    Huge,
    Malformed,
}

pub open spec fn literal_matches(r: Literal, t: Seq<char>) -> bool {
    match r {
        Literal::Value(v) => int_of_text(t) == Some(v as int),
        Literal::Huge => int_of_text(t) matches Some(v) && (v > LITERAL_CAP || v < -LITERAL_CAP),
        Literal::Malformed => int_of_text(t) is None,
    }
}

proof fn lemma_dec_grows(s: Seq<char>, k: int)
    requires
        0 <= k <= s.len(),
        forall|i: int| 0 <= i < s.len() ==> is_digit(#[trigger] s[i]),
    ensures
        dec_value(s) >= dec_value(s.subrange(0, k)) >= 0,
    decreases s.len(),
{
    if s.len() > 0 {
        if k == s.len() {
            assert(s.subrange(0, k) =~= s);
            lemma_dec_grows(s.drop_last(), s.len() - 1);
            assert(s.drop_last().subrange(0, s.len() - 1) =~= s.drop_last());
        } else {
            lemma_dec_grows(s.drop_last(), k);
            assert(s.drop_last().subrange(0, k) =~= s.subrange(0, k));
        }
    } else {
        assert(s.subrange(0, k) =~= s);
    }
}

proof fn lemma_hex_grows(s: Seq<char>, k: int)
    requires
        0 <= k <= s.len(),
        forall|i: int| 0 <= i < s.len() ==> is_hex(#[trigger] s[i]),
    ensures
        hex_value(s) >= hex_value(s.subrange(0, k)) >= 0,
    decreases s.len(),
{
    if s.len() > 0 {
        if k == s.len() {
            assert(s.subrange(0, k) =~= s);
            lemma_hex_grows(s.drop_last(), s.len() - 1);
            assert(s.drop_last().subrange(0, s.len() - 1) =~= s.drop_last());
        } else {
            lemma_hex_grows(s.drop_last(), k);
            assert(s.drop_last().subrange(0, k) =~= s.subrange(0, k));
        }
    } else {
        assert(s.subrange(0, k) =~= s);
    }
}

fn digit_value(c: char) -> (r: i64)
    requires
        is_hex(c),
    ensures
        r == hex_digit_value(c),
        0 <= r < 16,
        is_digit(c) ==> r < 10,
{
    if '0' <= c && c <= '9' {
        (c as u32 - '0' as u32) as i64
    } else if 'a' <= c && c <= 'f' {
        (c as u32 - 'a' as u32 + 10) as i64
    } else {
        (c as u32 - 'A' as u32 + 10) as i64
    }
}

/// Reads the unsigned numeral `t[start..]` in `base` (10 or 16), stopping at
/// `LITERAL_CAP`.
fn read_digits(t: &Vec<char>, start: usize, hexa: bool) -> (r: Option<i64>)
    requires
        start < t@.len(),
        hexa ==> forall|i: int| start <= i < t@.len() ==> is_hex(#[trigger] t@[i]),
        !hexa ==> forall|i: int| start <= i < t@.len() ==> is_digit(#[trigger] t@[i]),
    ensures
        ({
            let s = t@.subrange(start as int, t@.len() as int);
            let v = if hexa { hex_value(s) } else { dec_value(s) };
            match r {
                Some(x) => x == v && 0 <= x <= LITERAL_CAP,
                None => v > LITERAL_CAP,
            }
        }),
{
    let ghost s = t@.subrange(start as int, t@.len() as int);
    let mut acc: i64 = 0;
    let mut k: usize = start;
    let base: i64 = if hexa { 16 } else { 10 };
    assert(s.subrange(0, 0) =~= Seq::<char>::empty());
    while k < t.len()
        invariant
            start <= k <= t@.len(),
            s == t@.subrange(start as int, t@.len() as int),
            base == if hexa { 16i64 } else { 10i64 },
            hexa ==> forall|i: int| start <= i < t@.len() ==> is_hex(#[trigger] t@[i]),
            !hexa ==> forall|i: int| start <= i < t@.len() ==> is_digit(#[trigger] t@[i]),
            0 <= acc <= LITERAL_CAP,
            acc == if hexa { hex_value(s.subrange(0, k - start)) } else { dec_value(s.subrange(0, k - start)) },
        decreases t@.len() - k,
    {
        let d = digit_value(t[k]);
        let next = acc * base + d;
        proof {
            let p = s.subrange(0, k + 1 - start);
            assert(p.drop_last() =~= s.subrange(0, k - start));
            assert(p.last() == t@[k as int]);
        }
        if next > LITERAL_CAP {
            proof {
                if hexa {
                    lemma_hex_grows(s, k + 1 - start);
                } else {
                    lemma_dec_grows(s, k + 1 - start);
                }
            }
            return None;
        }
        acc = next;
        k += 1;
    }
    assert(s.subrange(0, k - start) =~= s);
    Some(acc)
}

fn all_hex_from(t: &Vec<char>, j: usize) -> (r: bool)
    ensures
        r == forall|i: int| j <= i < t@.len() ==> is_hex(#[trigger] t@[i]),
{
    let mut k = j;
    while k < t.len()
        invariant
            j <= k,
            forall|i: int| j <= i < k ==> is_hex(#[trigger] t@[i]),
        decreases t@.len() - k,
    {
        let c = t[k];
        if !(('0' <= c && c <= '9') || ('a' <= c && c <= 'f') || ('A' <= c && c <= 'F')) {
            return false;
        }
        k += 1;
    }
    true
}

fn all_digits_from(t: &Vec<char>, j: usize) -> (r: bool)
    ensures
        r == forall|i: int| j <= i < t@.len() ==> is_digit(#[trigger] t@[i]),
{
    let mut k = j;
    while k < t.len()
        invariant
            j <= k,
            forall|i: int| j <= i < k ==> is_digit(#[trigger] t@[i]),
        decreases t@.len() - k,
    {
        let c = t[k];
        if !('0' <= c && c <= '9') {
            return false;
        }
        k += 1;
    }
    true
}

/// Reads an integer literal.
pub fn parse_literal(t: &Vec<char>) -> (r: Literal)
    ensures
        literal_matches(r, t@),
{
    let n = t.len();
    let neg = n >= 1 && t[0] == '-';
    let start: usize = if neg { 1 } else { 0 };
    let ghost m = t@.subrange(start as int, n as int);
    proof {
        if neg {
            assert(t@.drop_first() =~= m);
        } else {
            assert(t@ =~= m);
        }
    }
    if start >= n {
        return Literal::Malformed;
    }
    let hex_form = n - start >= 3 && t[start] == '0' && (t[start + 1] == 'x' || t[start + 1] == 'X')
        && all_hex_from(t, start + 2);
    proof {
        if hex_form {
            assert(is_hex_literal(m));
            assert(m.subrange(2, m.len() as int) =~= t@.subrange(start + 2, n as int));
        } else if is_hex_literal(m) {
            assert forall|i: int| start + 2 <= i < t@.len() implies is_hex(#[trigger] t@[i]) by {
                assert(m[i - start] == t@[i]);
            }
        }
    }
    let mag = if hex_form {
        read_digits(t, start + 2, true)
    } else if all_digits_from(t, start) {
        proof {
            assert forall|i: int| 0 <= i < m.len() implies is_digit(#[trigger] m[i]) by {
                assert(m[i] == t@[i + start]);
            }
        }
        read_digits(t, start, false)
    } else {
        proof {
            if m.len() >= 1 && forall|i: int| 0 <= i < m.len() ==> is_digit(#[trigger] m[i]) {
                assert forall|i: int| start <= i < t@.len() implies is_digit(#[trigger] t@[i]) by {
                    assert(m[i - start] == t@[i]);
                }
            }
        }
        return Literal::Malformed;
    };
    match mag {
        Some(v) => Literal::Value(if neg { -v } else { v }),
        None => Literal::Huge,
    }
}

/// Operands as plain values: registers in source order, the immediate (0 when
/// there is none) and the label (empty when there is none).
pub struct Operands {
    pub regs: Seq<Reg>,
    pub imm: int,
    pub label: Seq<char>,
}

pub open spec fn no_operands() -> Operands {
    Operands { regs: Seq::empty(), imm: 0, label: Seq::empty() }
}

pub open spec fn join(a: Operands, b: Operands) -> Operands {
    Operands { regs: a.regs + b.regs, imm: a.imm + b.imm, label: a.label + b.label }
}

/// What token `t` gives in an operand position that expects `slot`.
pub open spec fn slot_value(t: TokenView, slot: Slot, line: usize) -> Result<Operands, EmuError> {
    match slot {
        Slot::Reg => if t.0 != TokenType::RegisterName {
            Err(EmuError::ParsingError(line))
        } else {
            match reg_of_name(t.1) {
                Some(r) => Ok(Operands { regs: seq![r], ..no_operands() }),
                None => Err(EmuError::InvalidReg(line)),
            }
        },
        Slot::Imm => if t.0 != TokenType::Integer {
            Err(EmuError::ParsingError(line))
        } else {
            match int_of_text(t.1) {
                Some(v) => Ok(Operands { imm: v, ..no_operands() }),
                None => Err(EmuError::ParsingError(line)),
            }
        },
        Slot::Label => if t.0 == TokenType::Identifier || t.0 == TokenType::Mnemonic {
            Ok(Operands { label: t.1, ..no_operands() })
        } else {
            Err(EmuError::ParsingError(line))
        },
        Slot::Comma => if t.0 == TokenType::Delimiter {
            Ok(no_operands())
        } else {
            Err(EmuError::ParsingError(line))
        },
        Slot::LParen => if t.0 == TokenType::LeftParen {
            Ok(no_operands())
        } else {
            Err(EmuError::ParsingError(line))
        },
        Slot::RParen => if t.0 == TokenType::RightParen {
            Ok(no_operands())
        } else {
            Err(EmuError::ParsingError(line))
        },
    }
}

/// The operands of `ts`, which must fill `slots` exactly, left to right.
pub open spec fn match_slots(ts: Seq<TokenView>, slots: Seq<Slot>, line: usize) -> Result<
    Operands,
    EmuError,
>
    decreases slots.len(),
{
    if slots.len() == 0 {
        if ts.len() == 0 {
            Ok(no_operands())
        } else {
            Err(EmuError::ParsingError(line))
        }
    } else if ts.len() == 0 {
        Err(EmuError::ParsingError(line))
    } else {
        match slot_value(ts[0], slots[0], line) {
            Err(e) => Err(e),
            Ok(h) => match match_slots(ts.drop_first(), slots.drop_first(), line) {
                Err(e) => Err(e),
                Ok(rest) => Ok(join(h, rest)),
            },
        }
    }
}

/// The instruction on a line whose first token is a mnemonic.
pub open spec fn parse_insn(ts: Seq<TokenView>, line: usize) -> Result<InsnView, EmuError> {
    if ts.len() == 0 || ts[0].0 != TokenType::Mnemonic {
        Err(EmuError::ParsingError(line))
    } else {
        match op_of_text(ts[0].1) {
            None => Err(EmuError::ParsingError(line)),
            Some(op) => match match_slots(ts.drop_first(), op_slots(op), line) {
                Err(e) => Err(e),
                Ok(o) => if imm_in_field(op, o.imm) {
                    Ok(
                        InsnView {
                            op,
                            regs: o.regs,
                            imm: if op_has_imm(op) { o.imm } else { 0 },
                            label: if op_has_label(op) { o.label } else { Seq::empty() },
                        },
                    )
                } else {
                    Err(EmuError::InvalidImm(line))
                },
            },
        }
    }
}

pub open spec fn slot_count(s: Seq<Slot>, which: Slot) -> nat
    decreases s.len(),
{
    if s.len() == 0 {
        0
    } else {
        (if s[0] == which { 1nat } else { 0nat }) + slot_count(s.drop_first(), which)
    }
}

proof fn lemma_slot_counts(op: Op)
    ensures
        slot_count(op_slots(op), Slot::Reg) == op_reg_count(op),
        slot_count(op_slots(op), Slot::Imm) == if op_has_imm(op) { 1nat } else { 0nat },
        slot_count(op_slots(op), Slot::Label) == if op_has_label(op) { 1nat } else { 0nat },
{
    reveal_with_fuel(slot_count, 7);
}

proof fn lemma_match_shape(ts: Seq<TokenView>, slots: Seq<Slot>, line: usize)
    requires
        match_slots(ts, slots, line) is Ok,
    ensures
        match_slots(ts, slots, line)->Ok_0.regs.len() == slot_count(slots, Slot::Reg),
        slot_count(slots, Slot::Imm) == 0 ==> match_slots(ts, slots, line)->Ok_0.imm == 0,
        slot_count(slots, Slot::Label) == 0 ==> match_slots(ts, slots, line)->Ok_0.label.len() == 0,
    decreases slots.len(),
{
    if slots.len() > 0 {
        lemma_match_shape(ts.drop_first(), slots.drop_first(), line);
    }
}

/// Operands as the parser holds them; `huge` marks an immediate beyond
/// `LITERAL_CAP`, whose exact value no operand can take.
pub struct ParsedOperands {
    pub regs: Vec<Reg>,
    pub imm: i64,
    pub huge: bool,
    pub label: Vec<char>,
}

pub open spec fn regs_ok(regs: Seq<Reg>) -> bool {
    forall|i: int| 0 <= i < regs.len() ==> #[trigger] regs[i] < 32
}

/// Every register operand of every instruction is one of the 32 registers,
/// and every immediate fits its field.
pub open spec fn stmt_ok(s: ProgramStatement) -> bool {
    match s {
        ProgramStatement::Instruction(i) => regs_ok(insn_view(i).regs) && imm_in_field(insn_view(i).op, insn_view(i).imm),
        ProgramStatement::Label(_) => true,
    }
}

pub open spec fn parsed_is(p: ParsedOperands, o: Operands) -> bool {
    &&& regs_ok(p.regs@)
    &&& p.regs@ == o.regs
    &&& p.label@ == o.label
    &&& if p.huge {
        o.imm > LITERAL_CAP || o.imm < -LITERAL_CAP
    } else {
        p.imm == o.imm && -LITERAL_CAP <= p.imm <= LITERAL_CAP
    }
}

fn empty_operands() -> (r: ParsedOperands)
    ensures
        parsed_is(r, no_operands()),
{
    ParsedOperands { regs: Vec::new(), imm: 0, huge: false, label: Vec::new() }
}

fn concat<T: Copy>(a: &Vec<T>, b: &Vec<T>) -> (r: Vec<T>)
    ensures
        r@ == a@ + b@,
{
    let mut out: Vec<T> = Vec::new();
    let mut i: usize = 0;
    while i < a.len()
        invariant
            i <= a@.len(),
            out@ == a@.subrange(0, i as int),
        decreases a@.len() - i,
    {
        out.push(a[i]);
        i += 1;
    }
    let mut j: usize = 0;
    while j < b.len()
        invariant
            i == a@.len(),
            j <= b@.len(),
            out@ == a@ + b@.subrange(0, j as int),
        decreases b@.len() - j,
    {
        out.push(b[j]);
        j += 1;
        assert(out@ =~= a@ + b@.subrange(0, j as int));
    }
    assert(b@.subrange(0, j as int) =~= b@);
    out
}

/// Reads a register operand.
fn parse_register(t: &Token, line: usize) -> (r: Result<Reg, EmuError>)
    ensures
        match slot_value(crate::lexer::token_view(*t), Slot::Reg, line) {
            Ok(o) => r is Ok && o.regs == seq![r->Ok_0] && r->Ok_0 < 32,
            Err(e) => r == Err::<Reg, EmuError>(e),
        },
{
    if t.token_type != TokenType::RegisterName {
        return Err(EmuError::ParsingError(line));
    }
    match register_id(t.lexeme.as_slice()) {
        Some(id) => Ok(id),
        None => Err(EmuError::InvalidReg(line)),
    }
}

fn parse_slot(t: &Token, slot: Slot, line: usize) -> (r: Result<ParsedOperands, EmuError>)
    ensures
        match slot_value(crate::lexer::token_view(*t), slot, line) {
            Ok(o) => r is Ok && parsed_is(r->Ok_0, o),
            Err(e) => r == Err::<ParsedOperands, EmuError>(e),
        },
{
    match slot {
        Slot::Reg => match parse_register(t, line) {
            Ok(id) => {
                let mut p = empty_operands();
                p.regs.push(id);
                proof {
                    assert(p.regs@ =~= seq![id]);
                }
                Ok(p)
            },
            Err(e) => Err(e),
        },
        Slot::Imm => {
            if t.token_type != TokenType::Integer {
                return Err(EmuError::ParsingError(line));
            }
            match parse_literal(&t.lexeme) {
                Literal::Value(v) => {
                    if v > LITERAL_CAP || v < -LITERAL_CAP {
                        Ok(ParsedOperands { regs: Vec::new(), imm: 0, huge: true, label: Vec::new() })
                    } else {
                        Ok(ParsedOperands { regs: Vec::new(), imm: v, huge: false, label: Vec::new() })
                    }
                },
                Literal::Huge => Ok(ParsedOperands { regs: Vec::new(), imm: 0, huge: true, label: Vec::new() }),
                Literal::Malformed => Err(EmuError::ParsingError(line)),
            }
        },
        Slot::Label => {
            if t.token_type == TokenType::Identifier || t.token_type == TokenType::Mnemonic {
                Ok(ParsedOperands { regs: Vec::new(), imm: 0, huge: false, label: copy_label(&t.lexeme) })
            } else {
                Err(EmuError::ParsingError(line))
            }
        },
        Slot::Comma => if t.token_type == TokenType::Delimiter {
            Ok(empty_operands())
        } else {
            Err(EmuError::ParsingError(line))
        },
        Slot::LParen => if t.token_type == TokenType::LeftParen {
            Ok(empty_operands())
        } else {
            Err(EmuError::ParsingError(line))
        },
        Slot::RParen => if t.token_type == TokenType::RightParen {
            Ok(empty_operands())
        } else {
            Err(EmuError::ParsingError(line))
        },
    }
}

/// Reads the operands `ts[i..]` against `slots[k..]`, as `match_slots` says.
fn parse_operands(ts: &Vec<Token>, i: usize, slots: &Vec<Slot>, k: usize, line: usize) -> (r: Result<
    ParsedOperands,
    EmuError,
>)
    requires
        i <= ts@.len(),
        k <= slots@.len(),
        slot_count(slots@.subrange(k as int, slots@.len() as int), Slot::Imm) <= 1,
    ensures
        match match_slots(
            tokens_view(ts@).subrange(i as int, ts@.len() as int),
            slots@.subrange(k as int, slots@.len() as int),
            line,
        ) {
            Ok(o) => r is Ok && parsed_is(r->Ok_0, o),
            Err(e) => r == Err::<ParsedOperands, EmuError>(e),
        },
    decreases slots@.len() - k,
{
    let ghost tv = tokens_view(ts@).subrange(i as int, ts@.len() as int);
    let ghost sv = slots@.subrange(k as int, slots@.len() as int);
    if k == slots.len() {
        if i == ts.len() {
            return Ok(empty_operands());
        } else {
            return Err(EmuError::ParsingError(line));
        }
    }
    if i == ts.len() {
        return Err(EmuError::ParsingError(line));
    }
    proof {
        assert(tv[0] == crate::lexer::token_view(ts@[i as int]));
        assert(sv[0] == slots@[k as int]);
        assert(tv.drop_first() =~= tokens_view(ts@).subrange(i + 1, ts@.len() as int));
        assert(sv.drop_first() =~= slots@.subrange(k + 1, slots@.len() as int));
    }
    let head = match parse_slot(&ts[i], slots[k], line) {
        Ok(h) => h,
        Err(e) => return Err(e),
    };
    let rest = match parse_operands(ts, i + 1, slots, k + 1, line) {
        Ok(x) => x,
        Err(e) => return Err(e),
    };
    proof {
        lemma_match_shape(tv.drop_first(), sv.drop_first(), line);
        assert(slot_count(sv, Slot::Imm) == (if sv[0] == Slot::Imm { 1nat } else { 0nat })
            + slot_count(sv.drop_first(), Slot::Imm));
    }
    let regs = concat(&head.regs, &rest.regs);
    let label = concat(&head.label, &rest.label);
    let huge = head.huge || rest.huge;
    let imm = if huge { 0 } else { head.imm + rest.imm };
    Ok(ParsedOperands { regs, imm, huge, label })
}

fn imm_fits(op: Op, v: i64) -> (r: bool)
    ensures
        r == imm_in_field(op, v as int),
{
    match op {
        Op::Sll | Op::Srl | Op::Sra => 0 <= v && v <= 31,
        Op::Addiu | Op::Andi | Op::Ori | Op::Xori | Op::Sltiu | Op::Lui => 0 <= v && v <= 0xFFFF_FFFF,
        Op::Addi | Op::Slti | Op::Lw | Op::Sw | Op::Lb | Op::Sb | Op::Lh | Op::Sh => -0x8000_0000
            <= v && v <= 0x7FFF_FFFF,
        Op::Li => -0x8000_0000 <= v && v <= 0xFFFF_FFFF,
        _ => true,
    }
}

/// Reads the instruction that `ts[start..]` holds, as `parse_insn` says.
pub fn parse_instruction(ts: &Vec<Token>, start: usize, line: usize) -> (r: Result<Instruction, EmuError>)
    requires
        start <= ts@.len(),
    ensures
        match parse_insn(tokens_view(ts@).subrange(start as int, ts@.len() as int), line) {
            Ok(iv) => r is Ok && insn_view(r->Ok_0) == iv && regs_ok(iv.regs) && imm_in_field(iv.op, iv.imm),
            Err(e) => r == Err::<Instruction, EmuError>(e),
        },
{
    let ghost tv = tokens_view(ts@).subrange(start as int, ts@.len() as int);
    if start == ts.len() || ts[start].token_type != TokenType::Mnemonic {
        return Err(EmuError::ParsingError(line));
    }
    proof {
        assert(tv[0] == crate::lexer::token_view(ts@[start as int]));
    }
    let op = match op_lookup(ts[start].lexeme.as_slice()) {
        Some(op) => op,
        None => return Err(EmuError::ParsingError(line)),
    };
    let slots = slots_of(op);
    proof {
        lemma_slot_counts(op);
        assert(slots@.subrange(0, slots@.len() as int) =~= slots@);
        assert(tv.drop_first() =~= tokens_view(ts@).subrange(start + 1, ts@.len() as int));
    }
    let ops = match parse_operands(ts, start + 1, &slots, 0, line) {
        Ok(p) => p,
        Err(e) => return Err(e),
    };
    proof {
        lemma_match_shape(tv.drop_first(), op_slots(op), line);
    }
    if ops.huge || !imm_fits(op, ops.imm) {
        return Err(EmuError::InvalidImm(line));
    }
    Ok(build_instruction(op, &ops.regs, ops.imm, &ops.label))
}


/// The parser's progress as plain values: the current section, the next
/// free data address, the text statements, the symbol table (text labels at
/// 0 until the assembler places them), the source line of each instruction,
/// and memory.
pub struct PState {
    pub data: bool,
    pub ptr: int,
    pub stmts: Seq<StmtView>,
    pub syms: Symbols,
    pub lines: Seq<usize>,
    pub mem: MemView,
}

pub open spec fn initial_state(mem: MemView) -> PState {
    PState {
        data: false,
        ptr: DEFAULT_STATIC_DATA_BASE_ADDRESS as int,
        stmts: Seq::empty(),
        syms: Seq::empty(),
        lines: Seq::empty(),
        mem,
    }
}

/// The alignment that a data directive asks of its label.
pub open spec fn align_of(d: Directive) -> int {
    match d {
        Directive::Half => 2,
        Directive::Word | Directive::Float => 4,
        Directive::Double => 8,
        _ => 1,
    }
}

pub open spec fn align_up(p: int, a: int) -> int {
    ((p + a - 1) / a) * a
}

pub open spec fn width_of(d: Directive) -> int {
    match d {
        Directive::Byte => 1,
        Directive::Half => 2,
        _ => 4,
    }
}

pub open spec fn value_fits(d: Directive, v: int) -> bool {
    match d {
        Directive::Byte => -0x80 <= v <= 0x7F,
        Directive::Half => -0x8000 <= v <= 0x7FFF,
        _ => -0x8000_0000 <= v <= 0x7FFF_FFFF,
    }
}

pub open spec fn store_value(m: MemView, d: Directive, a: u32, v: int) -> MemView {
    match d {
        Directive::Byte => m.store_byte(a, (v % 0x100) as u8),
        Directive::Half => m.store_half(a, (v % 0x1_0000) as u16),
        _ => m.store_word(a, (v % 0x1_0000_0000) as u32),
    }
}

/// A comma-separated list of integers for `.byte`, `.half` or `.word`, each
/// stored at the next free address.
pub open spec fn int_values(st: PState, d: Directive, vs: Seq<TokenView>, line: usize) -> Result<
    PState,
    EmuError,
>
    decreases vs.len(),
{
    if vs.len() == 0 || vs[0].0 != TokenType::Integer {
        Err(EmuError::ParsingError(line))
    } else {
        match int_of_text(vs[0].1) {
            None => Err(EmuError::ParsingError(line)),
            Some(v) => if !value_fits(d, v) || st.ptr + width_of(d) > 0x1_0000_0000 {
                Err(EmuError::ParsingError(line))
            } else {
                let st2 = PState {
                    mem: store_value(st.mem, d, st.ptr as u32, v),
                    ptr: st.ptr + width_of(d),
                    ..st
                };
                if vs.len() == 1 {
                    Ok(st2)
                } else if vs[1].0 == TokenType::Delimiter {
                    int_values(st2, d, vs.subrange(2, vs.len() as int), line)
                } else {
                    Err(EmuError::ParsingError(line))
                }
            },
        }
    }
}

/// The operands of directive `d` after a data label.
pub open spec fn data_values(st: PState, d: Directive, vs: Seq<TokenView>, line: usize) -> Result<
    PState,
    EmuError,
> {
    match d {
        Directive::Byte | Directive::Half | Directive::Word => int_values(st, d, vs, line),
        Directive::Space => if vs.len() == 1 && vs[0].0 == TokenType::Integer && int_of_text(vs[0].1) is Some && 0
            <= int_of_text(vs[0].1)->0 && st.ptr + int_of_text(vs[0].1)->0 <= 0x1_0000_0000 {
            Ok(PState { ptr: st.ptr + int_of_text(vs[0].1)->0, ..st })
        } else {
            Err(EmuError::ParsingError(line))
        },
        Directive::Ascii | Directive::Asciiz => if vs.len() == 1 && vs[0].0 == TokenType::QuotedString {
            let bytes = if d == Directive::Asciiz {
                encode_utf8(vs[0].1).push(0u8)
            } else {
                encode_utf8(vs[0].1)
            };
            if st.ptr + bytes.len() <= 0x1_0000_0000 {
                Ok(PState { mem: st.mem.store_bytes(st.ptr as u32, bytes), ptr: st.ptr + bytes.len(), ..st })
            } else {
                Err(EmuError::ParsingError(line))
            }
        } else {
            Err(EmuError::ParsingError(line))
        },
        _ => Err(EmuError::ParsingError(line)),
    }
}

/// A data-section line: `name: .directive operands`.
pub open spec fn parse_data_line(st: PState, ts: Seq<TokenView>, line: usize) -> Result<PState, EmuError> {
    if ts.len() < 3 || ts[0].0 != TokenType::Identifier || ts[1].0 != TokenType::Colon || ts[2].0
        != TokenType::Directive {
        Err(EmuError::ParsingError(line))
    } else if symbol_lookup(st.syms, ts[0].1) is Some {
        Err(EmuError::ParsingError(line))
    } else {
        match directive_of_text(ts[2].1) {
            None => Err(EmuError::ParsingError(line)),
            Some(d) => {
                let a = align_up(st.ptr, align_of(d));
                if a > u32::MAX {
                    Err(EmuError::ParsingError(line))
                } else {
                    data_values(
                        PState { syms: st.syms.push((ts[0].1, a as u32)), ptr: a, ..st },
                        d,
                        ts.subrange(3, ts.len() as int),
                        line,
                    )
                }
            },
        }
    }
}

pub open spec fn with_insn(st: PState, ts: Seq<TokenView>, line: usize) -> Result<PState, EmuError> {
    match parse_insn(ts, line) {
        Err(e) => Err(e),
        Ok(iv) => Ok(PState { stmts: st.stmts.push(StmtView::Insn(iv)), lines: st.lines.push(line), ..st }),
    }
}

/// A text-section line: an instruction, or a label with an optional
/// instruction after it.
pub open spec fn parse_text_line(st: PState, ts: Seq<TokenView>, line: usize) -> Result<PState, EmuError> {
    if ts[0].0 == TokenType::Mnemonic {
        with_insn(st, ts, line)
    } else if ts.len() >= 2 && ts[0].0 == TokenType::Identifier && ts[1].0 == TokenType::Colon {
        if symbol_lookup(st.syms, ts[0].1) is Some {
            Err(EmuError::ParsingError(line))
        } else {
            let st2 = PState {
                stmts: st.stmts.push(StmtView::Label(ts[0].1)),
                syms: st.syms.push((ts[0].1, 0u32)),
                ..st
            };
            if ts.len() == 2 {
                Ok(st2)
            } else {
                with_insn(st2, ts.subrange(2, ts.len() as int), line)
            }
        }
    } else {
        Err(EmuError::ParsingError(line))
    }
}

/// One source line, comments removed.
pub open spec fn parse_line(st: PState, ts: Seq<TokenView>, line: usize) -> Result<PState, EmuError> {
    if ts.len() == 0 {
        Ok(st)
    } else if ts[0].0 == TokenType::Directive && directive_of_text(ts[0].1) == Some(Directive::Data) {
        Ok(PState { data: true, ..st })
    } else if ts[0].0 == TokenType::Directive && directive_of_text(ts[0].1) == Some(Directive::Text) {
        Ok(PState { data: false, ..st })
    } else if st.data {
        parse_data_line(st, ts, line)
    } else {
        parse_text_line(st, ts, line)
    }
}

pub open spec fn drop_comments(ts: Seq<TokenView>) -> Seq<TokenView>
    decreases ts.len(),
{
    if ts.len() == 0 {
        ts
    } else if ts.last().0 == TokenType::Comment {
        drop_comments(ts.drop_last())
    } else {
        drop_comments(ts.drop_last()).push(ts.last())
    }
}

/// The end of the run of tokens from `j` on that share the line of token `i`.
pub open spec fn line_run(ts: Seq<TokenView>, i: int, j: int) -> int
    decreases ts.len() - j,
{
    if j >= ts.len() || ts[j].2 != ts[i].2 {
        j
    } else {
        line_run(ts, i, j + 1)
    }
}

/// The parser state after the lines from token `i` on.
pub open spec fn parse_from(ts: Seq<TokenView>, i: int, st: PState) -> Result<PState, EmuError>
    decreases ts.len() - i,
{
    if i < 0 || i >= ts.len() {
        Ok(st)
    } else {
        let j = line_run(ts, i, i + 1);
        if !(i < j <= ts.len()) {
            Ok(st)
        } else {
            match parse_line(st, drop_comments(ts.subrange(i, j)), ts[i].2 as usize) {
                Err(e) => Err(e),
                Ok(st2) => parse_from(ts, j, st2),
            }
        }
    }
}

/// The first label that a jump, branch or `la` names and the symbol table lacks.
pub open spec fn first_undefined(stmts: Seq<StmtView>, syms: Symbols) -> Option<Seq<char>>
    decreases stmts.len(),
{
    if stmts.len() == 0 {
        None
    } else {
        match stmts[0] {
            StmtView::Insn(iv) => if op_has_label(iv.op) && symbol_lookup(syms, iv.label) is None {
                Some(iv.label)
            } else {
                first_undefined(stmts.drop_first(), syms)
            },
            StmtView::Label(_) => first_undefined(stmts.drop_first(), syms),
        }
    }
}

/// A line that declares a label the symbol table already holds, in either
/// section, is refused as a parsing error on that line.
pub proof fn lemma_duplicate_label_refused(st: PState, ts: Seq<TokenView>, line: usize)
    requires
        ts.len() >= 2,
        ts[0].0 == TokenType::Identifier,
        ts[1].0 == TokenType::Colon,
        symbol_lookup(st.syms, ts[0].1) is Some,
    ensures
        parse_line(st, ts, line) == Err::<PState, EmuError>(EmuError::ParsingError(line)),
{
}

/// Some instruction statement names a label that `syms` lacks.
pub open spec fn names_missing(stmts: Seq<StmtView>, syms: Symbols) -> bool {
    exists|k: int|
        0 <= k < stmts.len() && (#[trigger] stmts[k] matches StmtView::Insn(iv) && op_has_label(iv.op)
            && symbol_lookup(syms, iv.label) is None)
}

/// When some jump, branch or `la` names a missing label, the first such label
/// is reported, and it is indeed missing.
pub proof fn lemma_first_undefined_found(stmts: Seq<StmtView>, syms: Symbols)
    requires
        names_missing(stmts, syms),
    ensures
        first_undefined(stmts, syms) is Some,
        symbol_lookup(syms, first_undefined(stmts, syms)->0) is None,
    decreases stmts.len(),
{
    let k = choose|k: int|
        0 <= k < stmts.len() && (#[trigger] stmts[k] matches StmtView::Insn(iv) && op_has_label(iv.op)
            && symbol_lookup(syms, iv.label) is None);
    let found_here = stmts[0] matches StmtView::Insn(iv) && op_has_label(iv.op) && symbol_lookup(syms, iv.label) is None;
    if !found_here {
        assert(k > 0);
        assert(stmts.drop_first()[k - 1] == stmts[k]);
        lemma_first_undefined_found(stmts.drop_first(), syms);
    }
}

pub enum ParseError {
    At(EmuError),
    Undefined(Seq<char>),
}

/// What parsing the tokens `ts` into memory `mem` yields.
pub open spec fn parse_result(ts: Seq<TokenView>, mem: MemView) -> Result<PState, ParseError> {
    match parse_from(ts, 0, initial_state(mem)) {
        Err(e) => Err(ParseError::At(e)),
        Ok(st) => match first_undefined(st.stmts, st.syms) {
            Some(l) => Err(ParseError::Undefined(l)),
            None => Ok(st),
        },
    }
}


fn copy_token(t: &Token) -> (r: Token)
    ensures
        crate::lexer::token_view(r) == crate::lexer::token_view(*t),
{
    Token { lexeme: copy_label(&t.lexeme), token_type: t.token_type, line_number: t.line_number }
}

/// The label that `i` jumps or branches to, or loads the address of.
fn target_of(i: &Instruction) -> (r: Option<&Vec<char>>)
    ensures
        match r {
            Some(l) => op_has_label(insn_view(*i).op) && l@ == insn_view(*i).label,
            None => !op_has_label(insn_view(*i).op),
        },
{
    match i {
        Instruction::Core(c) => match c {
            crate::instruction::CoreInstruction::J { label } => Some(label),
            crate::instruction::CoreInstruction::Jal { label } => Some(label),
            crate::instruction::CoreInstruction::Beq { label, .. } => Some(label),
            crate::instruction::CoreInstruction::Bne { label, .. } => Some(label),
            _ => None,
        },
        Instruction::Pseudo(p) => match p {
            crate::instruction::PseudoInstruction::La { label, .. } => Some(label),
            crate::instruction::PseudoInstruction::Blt { label, .. } => Some(label),
            crate::instruction::PseudoInstruction::Bgt { label, .. } => Some(label),
            crate::instruction::PseudoInstruction::Ble { label, .. } => Some(label),
            crate::instruction::PseudoInstruction::Bge { label, .. } => Some(label),
            _ => None,
        },
    }
}

/// Turns the tokens of a source text into text statements, a symbol table
/// and the data segment.
pub struct Parser {
    pub lexer: Lexer,
    pub section: Section,
    pub data_section_pointer: u64,
    pub program_statements: Vec<ProgramStatement>,
    pub symbol_table: Vec<(Vec<char>, u32)>,
    pub line_numbers: Vec<usize>,
    pub current_line: usize,
}

fn store_int(memory: &mut Memory, d: Directive, a: u32, v: i64)
    requires
        old(memory).wf(),
        value_fits(d, v as int),
    ensures
        final(memory).wf(),
        final(memory)@ == store_value(old(memory)@, d, a, v as int),
{
    match d {
        Directive::Byte => {
            let b: u8 = if v < 0 { (v + 0x100) as u8 } else { v as u8 };
            let x: i8 = #[verifier::truncate] (b as i8);
            assert(#[verifier::truncate] (x as u8) == b) by (bit_vector)
                requires x == #[verifier::truncate] (b as i8);
            memory.set_byte(a, x);
        },
        Directive::Half => {
            let h: u16 = if v < 0 { (v + 0x1_0000) as u16 } else { v as u16 };
            let x: i16 = #[verifier::truncate] (h as i16);
            assert(#[verifier::truncate] (x as u16) == h) by (bit_vector)
                requires x == #[verifier::truncate] (h as i16);
            memory.set_halfword(a, x);
        },
        _ => {
            let w: u32 = if v < 0 { (v + 0x1_0000_0000) as u32 } else { v as u32 };
            let x: i32 = #[verifier::truncate] (w as i32);
            assert(#[verifier::truncate] (x as u32) == w) by (bit_vector)
                requires x == #[verifier::truncate] (w as i32);
            memory.set_word(a, x);
        },
    }
}

/// The UTF-8 encoding of `c`.
fn utf8_of(c: char) -> (r: Vec<u8>)
    ensures
        r@ == encode_scalar(c as u32),
{
    proof {
        vstd::utf8::char_is_scalar(c);
    }
    let u = c as u32;
    let v = if u <= 0x7F {
        vec![(u & 0x7F) as u8]
    } else if u <= 0x7FF {
        vec![0xC0 | ((u >> 6) & 0x1F) as u8, 0x80 | (u & 0x3F) as u8]
    } else if u <= 0xFFFF {
        vec![0xE0 | ((u >> 12) & 0x0F) as u8, 0x80 | ((u >> 6) & 0x3F) as u8, 0x80 | (u & 0x3F) as u8]
    } else {
        vec![
            0xF0 | ((u >> 18) & 0x7) as u8,
            0x80 | ((u >> 12) & 0x3F) as u8,
            0x80 | ((u >> 6) & 0x3F) as u8,
            0x80 | (u & 0x3F) as u8,
        ]
    };
    assert(v@ =~= encode_scalar(u));
    v
}

/// The UTF-8 encoding of the characters `t`.
fn utf8_bytes(t: &Vec<char>) -> (r: Vec<u8>)
    ensures
        r@ == encode_utf8(t@),
{
    let n = t.len();
    let mut out: Vec<u8> = Vec::new();
    let mut i: usize = 0;
    assert(t@.subrange(0, n as int) =~= t@);
    while i < n
        invariant
            i <= n,
            n == t@.len(),
            out@ + encode_utf8(t@.subrange(i as int, n as int)) == encode_utf8(t@),
        decreases n - i,
    {
        let mut bytes = utf8_of(t[i]);
        let ghost before = out@;
        let ghost rest = t@.subrange(i as int, n as int);
        proof {
            assert(rest.drop_first() =~= t@.subrange(i + 1, n as int));
            assert(rest[0] == t@[i as int]);
        }
        out.append(&mut bytes);
        proof {
            assert(out@ + encode_utf8(t@.subrange(i + 1, n as int)) =~= before + encode_utf8(rest));
        }
        i += 1;
    }
    assert(t@.subrange(n as int, n as int) =~= Seq::<char>::empty());
    assert(out@ + Seq::<u8>::empty() =~= out@);
    out
}

impl Parser {
    pub open spec fn state(&self, mem: MemView) -> PState {
        PState {
            data: self.section == Section::Data,
            ptr: self.data_section_pointer as int,
            stmts: stmts_view(self.program_statements@),
            syms: symbols_view(self.symbol_table@),
            lines: self.line_numbers@,
            mem,
        }
    }

    pub open spec fn wf(&self) -> bool {
        &&& self.data_section_pointer <= 0x1_0000_0000
        &&& forall|k: int| 0 <= k < self.program_statements@.len() ==> #[trigger] stmt_ok(self.program_statements@[k])
    }

    pub fn new() -> (r: Self)
        ensures
            r.wf(),
            forall|m: MemView| #[trigger] r.state(m) == initial_state(m),
    {
        let r = Parser {
            lexer: Lexer::new(),
            section: Section::Text,
            data_section_pointer: DEFAULT_STATIC_DATA_BASE_ADDRESS as u64,
            program_statements: Vec::new(),
            symbol_table: Vec::new(),
            line_numbers: Vec::new(),
            current_line: 0,
        };
        assert forall|m: MemView| #[trigger] r.state(m) == initial_state(m) by {
            assert(stmts_view(r.program_statements@) =~= Seq::<StmtView>::empty());
            assert(symbols_view(r.symbol_table@) =~= Seq::<(Seq<char>, u32)>::empty());
        }
        r
    }

    /// Back to the state of a new parser.
    pub fn reset(&mut self)
        ensures
            final(self).wf(),
            forall|m: MemView| #[trigger] final(self).state(m) == initial_state(m),
    {
        *self = Parser::new();
    }

    fn push_statement(&mut self, st: ProgramStatement)
        requires
            old(self).wf(),
            stmt_ok(st),
        ensures
            final(self).wf(),
            final(self).program_statements@ == old(self).program_statements@.push(st),
            stmts_view(final(self).program_statements@) == stmts_view(old(self).program_statements@).push(stmt_view(st)),
            final(self).symbol_table == old(self).symbol_table,
            final(self).line_numbers == old(self).line_numbers,
            final(self).section == old(self).section,
            final(self).data_section_pointer == old(self).data_section_pointer,
    {
        self.program_statements.push(st);
        assert(stmts_view(self.program_statements@) =~= stmts_view(old(self).program_statements@).push(stmt_view(st)));
    }

    fn push_symbol(&mut self, name: Vec<char>, address: u32)
        ensures
            symbols_view(final(self).symbol_table@) == symbols_view(old(self).symbol_table@).push((name@, address)),
            final(self).program_statements == old(self).program_statements,
            final(self).line_numbers == old(self).line_numbers,
            final(self).section == old(self).section,
            final(self).data_section_pointer == old(self).data_section_pointer,
    {
        let ghost before = self.symbol_table@;
        self.symbol_table.push((name, address));
        assert(symbols_view(self.symbol_table@) =~= symbols_view(before).push((name@, address)));
    }

    /// Parses the instruction `ts[start..]` and appends it.
    fn add_instruction(&mut self, ts: &Vec<Token>, start: usize, line: usize) -> (r: Result<(), EmuError>)
        requires
            old(self).wf(),
            start <= ts@.len(),
        ensures
            forall|m: MemView|
                match with_insn(#[trigger] old(self).state(m), tokens_view(ts@).subrange(start as int, ts@.len() as int), line) {
                    Ok(st) => r is Ok && final(self).state(m) == st,
                    Err(e) => r == Err::<(), EmuError>(e),
                },
            final(self).wf(),
    {
        match parse_instruction(ts, start, line) {
            Ok(insn) => {
                self.push_statement(ProgramStatement::Instruction(insn));
                self.line_numbers.push(line);
                Ok(())
            },
            Err(e) => Err(e),
        }
    }

    /// The operands of data directive `d`: `ts[start..]`.
    pub fn parse_data_operands(
        &mut self,
        d: Directive,
        ts: &Vec<Token>,
        start: usize,
        line: usize,
        memory: &mut Memory,
    ) -> (r: Result<(), EmuError>)
        requires
            old(self).wf(),
            old(memory).wf(),
            start <= ts@.len(),
        ensures
            final(self).wf(),
            final(memory).wf(),
            match data_values(
                old(self).state(old(memory)@),
                d,
                tokens_view(ts@).subrange(start as int, ts@.len() as int),
                line,
            ) {
                Ok(st) => r is Ok && final(self).state(final(memory)@) == st,
                Err(e) => r == Err::<(), EmuError>(e),
            },
    {
        let ghost tv = tokens_view(ts@);
        let n = ts.len();
        match d {
            Directive::Byte | Directive::Half | Directive::Word => {
                let width: u64 = match d {
                    Directive::Byte => 1,
                    Directive::Half => 2,
                    _ => 4,
                };
                let ghost target = data_values(old(self).state(old(memory)@), d, tv.subrange(start as int, n as int), line);
                let mut k = start;
                loop
                    invariant
                        start <= k <= n,
                        n == ts@.len(),
                        tv == tokens_view(ts@),
                        self.wf(),
                        memory.wf(),
                        width as int == width_of(d),
                        d == Directive::Byte || d == Directive::Half || d == Directive::Word,
                        target == int_values(self.state(memory@), d, tv.subrange(k as int, n as int), line),
                        target == data_values(old(self).state(old(memory)@), d, tv.subrange(start as int, n as int), line),
                    decreases n - k,
                {
                    let ghost vs = tv.subrange(k as int, n as int);
                    if k >= n {
                        return Err(EmuError::ParsingError(line));
                    }
                    assert(vs[0] == crate::lexer::token_view(ts@[k as int]));
                    if ts[k].token_type != TokenType::Integer {
                        return Err(EmuError::ParsingError(line));
                    }
                    let v = match parse_literal(&ts[k].lexeme) {
                        Literal::Value(v) => v,
                        _ => return Err(EmuError::ParsingError(line)),
                    };
                    let fits = match d {
                        Directive::Byte => -0x80 <= v && v <= 0x7F,
                        Directive::Half => -0x8000 <= v && v <= 0x7FFF,
                        _ => -0x8000_0000 <= v && v <= 0x7FFF_FFFF,
                    };
                    if !fits || self.data_section_pointer + width > 0x1_0000_0000 {
                        return Err(EmuError::ParsingError(line));
                    }
                    store_int(memory, d, self.data_section_pointer as u32, v);
                    self.data_section_pointer = self.data_section_pointer + width;
                    if k + 1 == n {
                        return Ok(());
                    }
                    assert(vs[1] == crate::lexer::token_view(ts@[k + 1]));
                    if ts[k + 1].token_type != TokenType::Delimiter {
                        return Err(EmuError::ParsingError(line));
                    }
                    assert(vs.subrange(2, vs.len() as int) =~= tv.subrange(k + 2, n as int));
                    k = k + 2;
                }
            },
            Directive::Space => {
                if n - start != 1 || ts[start].token_type != TokenType::Integer {
                    return Err(EmuError::ParsingError(line));
                }
                assert(tv.subrange(start as int, n as int)[0] == crate::lexer::token_view(ts@[start as int]));
                match parse_literal(&ts[start].lexeme) {
                    Literal::Value(v) => {
                        if v < 0 || self.data_section_pointer + (v as u64) > 0x1_0000_0000 {
                            return Err(EmuError::ParsingError(line));
                        }
                        self.data_section_pointer = self.data_section_pointer + v as u64;
                        Ok(())
                    },
                    _ => Err(EmuError::ParsingError(line)),
                }
            },
            Directive::Ascii | Directive::Asciiz => {
                if n - start != 1 || ts[start].token_type != TokenType::QuotedString {
                    return Err(EmuError::ParsingError(line));
                }
                assert(tv.subrange(start as int, n as int)[0] == crate::lexer::token_view(ts@[start as int]));
                let mut bytes = utf8_bytes(&ts[start].lexeme);
                if d == Directive::Asciiz {
                    bytes.push(0);
                }
                if bytes.len() as u64 > 0x1_0000_0000 - self.data_section_pointer {
                    return Err(EmuError::ParsingError(line));
                }
                memory.set_bytes(self.data_section_pointer as u32, bytes.as_slice());
                self.data_section_pointer = self.data_section_pointer + bytes.len() as u64;
                Ok(())
            },
            _ => Err(EmuError::ParsingError(line)),
        }
    }

    /// A line of the data section: `name: .directive operands`.
    pub fn parse_data(&mut self, ts: &Vec<Token>, line: usize, memory: &mut Memory) -> (r: Result<(), EmuError>)
        requires
            old(self).wf(),
            old(memory).wf(),
        ensures
            final(self).wf(),
            final(memory).wf(),
            match parse_data_line(old(self).state(old(memory)@), tokens_view(ts@), line) {
                Ok(st) => r is Ok && final(self).state(final(memory)@) == st,
                Err(e) => r == Err::<(), EmuError>(e),
            },
    {
        let ghost tv = tokens_view(ts@);
        if ts.len() < 3 || ts[0].token_type != TokenType::Identifier || ts[1].token_type != TokenType::Colon
            || ts[2].token_type != TokenType::Directive {
            proof {
                if ts@.len() >= 3 {
                    assert(tv[0] == crate::lexer::token_view(ts@[0]));
                    assert(tv[1] == crate::lexer::token_view(ts@[1]));
                    assert(tv[2] == crate::lexer::token_view(ts@[2]));
                }
            }
            return Err(EmuError::ParsingError(line));
        }
        assert(tv[0] == crate::lexer::token_view(ts@[0]));
        assert(tv[1] == crate::lexer::token_view(ts@[1]));
        assert(tv[2] == crate::lexer::token_view(ts@[2]));
        if find_symbol(&self.symbol_table, ts[0].lexeme.as_slice()).is_some() {
            return Err(EmuError::ParsingError(line));
        }
        let d = match directive_lookup(ts[2].lexeme.as_slice()) {
            Some(d) => d,
            None => return Err(EmuError::ParsingError(line)),
        };
        let p = self.data_section_pointer;
        let a: u64 = match d {
            Directive::Half => (p + 1) / 2 * 2,
            Directive::Word | Directive::Float => (p + 3) / 4 * 4,
            Directive::Double => (p + 7) / 8 * 8,
            _ => p,
        };
        proof {
            let pi = p as int;
            if align_of(d) == 1 {
                assert(((pi + 1 - 1) / 1) * 1 == pi) by (nonlinear_arith);
            }
            assert(a == align_up(p as int, align_of(d)));
        }
        if a > 0xFFFF_FFFF {
            return Err(EmuError::ParsingError(line));
        }
        self.push_symbol(copy_label(&ts[0].lexeme), a as u32);
        self.data_section_pointer = a;
        self.parse_data_operands(d, ts, 3, line, memory)
    }

    /// One source line, comments removed.
    pub fn parse_statement(&mut self, ts: &Vec<Token>, line: usize, memory: &mut Memory) -> (r: Result<(), EmuError>)
        requires
            old(self).wf(),
            old(memory).wf(),
        ensures
            final(self).wf(),
            final(memory).wf(),
            match parse_line(old(self).state(old(memory)@), tokens_view(ts@), line) {
                Ok(st) => r is Ok && final(self).state(final(memory)@) == st,
                Err(e) => r == Err::<(), EmuError>(e),
            },
    {
        let ghost tv = tokens_view(ts@);
        if ts.len() == 0 {
            return Ok(());
        }
        assert(tv[0] == crate::lexer::token_view(ts@[0]));
        if ts[0].token_type == TokenType::Directive {
            match directive_lookup(ts[0].lexeme.as_slice()) {
                Some(Directive::Data) => {
                    self.section = Section::Data;
                    return Ok(());
                },
                Some(Directive::Text) => {
                    self.section = Section::Text;
                    return Ok(());
                },
                _ => {},
            }
        }
        if self.section == Section::Data {
            self.parse_data(ts, line, memory)
        } else {
            let r = self.parse_text(ts, line);
            assert(self.state(memory@) == self.state(old(memory)@));
            r
        }
    }

    /// The first label that a jump, branch or `la` names and the symbol table lacks.
    fn find_undefined(&self) -> (r: Option<Vec<char>>)
        ensures
            match first_undefined(stmts_view(self.program_statements@), symbols_view(self.symbol_table@)) {
                Some(l) => r is Some && r->0@ == l,
                None => r is None,
            },
    {
        let ghost all = stmts_view(self.program_statements@);
        let ghost syms = symbols_view(self.symbol_table@);
        let mut i: usize = 0;
        assert(all.subrange(0, all.len() as int) =~= all);
        while i < self.program_statements.len()
            invariant
                i <= self.program_statements@.len(),
                all == stmts_view(self.program_statements@),
                syms == symbols_view(self.symbol_table@),
                first_undefined(all, syms) == first_undefined(all.subrange(i as int, all.len() as int), syms),
            decreases self.program_statements@.len() - i,
        {
            proof {
                let rest = all.subrange(i as int, all.len() as int);
                assert(rest.drop_first() =~= all.subrange(i + 1, all.len() as int));
                assert(rest[0] == stmt_view(self.program_statements@[i as int]));
            }
            match &self.program_statements[i] {
                ProgramStatement::Instruction(insn) => match target_of(insn) {
                    Some(l) => {
                        if find_symbol(&self.symbol_table, l.as_slice()).is_none() {
                            return Some(copy_label(l));
                        }
                    },
                    None => {},
                },
                ProgramStatement::Label(_) => {},
            }
            i += 1;
        }
        None
    }

    /// Parses `code`, writing its data segment into `memory`: the text
    /// statements, the symbol table and the source line of each instruction.
    pub fn parse_program(&mut self, code: &str, memory: &mut Memory) -> (r: Result<
        (Vec<ProgramStatement>, Vec<(Vec<char>, u32)>, Vec<usize>),
        EmuError,
    >)
        requires
            old(memory).wf(),
            code@.len() < usize::MAX,
        ensures
            final(memory).wf(),
            match parse_result(crate::lexer::lex(code@), old(memory)@) {
                Ok(st) => r is Ok && stmts_view(r->Ok_0.0@) == st.stmts && symbols_view(r->Ok_0.1@)
                    == st.syms && r->Ok_0.2@ == st.lines && final(memory)@ == st.mem
                    && forall|k: int| 0 <= k < r->Ok_0.0@.len() ==> #[trigger] stmt_ok(r->Ok_0.0@[k]),
                Err(ParseError::At(e)) => r == Err::<(Vec<ProgramStatement>, Vec<(Vec<char>, u32)>, Vec<usize>), EmuError>(e),
                Err(ParseError::Undefined(l)) => r is Err && (r->Err_0 matches EmuError::UndefinedLabel(x) && x@ == l),
            },
    {
        self.reset();
        assert(self.state(memory@) == initial_state(memory@));
        let tokens = self.lexer.tokenize(code);
        let ghost tv = tokens_view(tokens@);
        let ghost target = parse_from(tv, 0, initial_state(old(memory)@));
        let n = tokens.len();
        let mut i: usize = 0;
        while i < n
            invariant
                i <= n,
                n == tokens@.len(),
                tv == tokens_view(tokens@),
                tv == crate::lexer::lex(code@),
                self.wf(),
                memory.wf(),
                target == parse_from(tv, 0, initial_state(old(memory)@)),
                target == parse_from(tv, i as int, self.state(memory@)),
            decreases n - i,
        {
            let line = tokens[i].line_number;
            let mut j = i + 1;
            while j < n && tokens[j].line_number == line
                invariant
                    i < j <= n,
                    n == tokens@.len(),
                    tv == tokens_view(tokens@),
                    line == tokens@[i as int].line_number,
                    line_run(tv, i as int, i + 1) == line_run(tv, i as int, j as int),
                decreases n - j,
            {
                assert(tv[j as int].2 == tokens@[j as int].line_number);
                j += 1;
            }
            proof {
                if j < n {
                    assert(tv[j as int].2 == tokens@[j as int].line_number);
                }
                assert(tv[i as int].2 == line);
            }
            let mut line_tokens: Vec<Token> = Vec::new();
            let mut k = i;
            assert(tv.subrange(i as int, i as int) =~= Seq::<TokenView>::empty());
            while k < j
                invariant
                    i <= k <= j,
                    j <= n,
                    n == tokens@.len(),
                    tv == tokens_view(tokens@),
                    tokens_view(line_tokens@) == drop_comments(tv.subrange(i as int, k as int)),
                decreases j - k,
            {
                proof {
                    let sub = tv.subrange(i as int, k + 1);
                    assert(sub.drop_last() =~= tv.subrange(i as int, k as int));
                    assert(sub.last() == crate::lexer::token_view(tokens@[k as int]));
                }
                if tokens[k].token_type != TokenType::Comment {
                    let ghost before = line_tokens@;
                    line_tokens.push(copy_token(&tokens[k]));
                    assert(tokens_view(line_tokens@) =~= tokens_view(before).push(crate::lexer::token_view(tokens@[k as int])));
                }
                k += 1;
            }
            self.current_line = line;
            match self.parse_statement(&line_tokens, line, memory) {
                Ok(()) => {},
                Err(e) => return Err(e),
            }
            i = j;
        }
        proof {
            assert(target == Ok::<PState, EmuError>(self.state(memory@)));
        }
        match self.find_undefined() {
            Some(l) => return Err(EmuError::UndefinedLabel(l)),
            None => {},
        }
        let mut stmts: Vec<ProgramStatement> = Vec::new();
        let mut symbols: Vec<(Vec<char>, u32)> = Vec::new();
        let mut lines: Vec<usize> = Vec::new();
        std::mem::swap(&mut stmts, &mut self.program_statements);
        std::mem::swap(&mut symbols, &mut self.symbol_table);
        std::mem::swap(&mut lines, &mut self.line_numbers);
        Ok((stmts, symbols, lines))
    }

    /// A line of the text section.
    pub fn parse_text(&mut self, ts: &Vec<Token>, line: usize) -> (r: Result<(), EmuError>)
        requires
            old(self).wf(),
            ts@.len() > 0,
        ensures
            forall|m: MemView|
                match parse_text_line(#[trigger] old(self).state(m), tokens_view(ts@), line) {
                    Ok(st) => r is Ok && final(self).state(m) == st,
                    Err(e) => r == Err::<(), EmuError>(e),
                },
            final(self).wf(),
    {
        let ghost tv = tokens_view(ts@);
        assert(tv[0] == crate::lexer::token_view(ts@[0]));
        assert(tv.subrange(0, tv.len() as int) =~= tv);
        if ts[0].token_type == TokenType::Mnemonic {
            return self.add_instruction(ts, 0, line);
        }
        if ts.len() >= 2 && ts[0].token_type == TokenType::Identifier && ts[1].token_type == TokenType::Colon {
            assert(tv[1] == crate::lexer::token_view(ts@[1]));
            if find_symbol(&self.symbol_table, ts[0].lexeme.as_slice()).is_some() {
                return Err(EmuError::ParsingError(line));
            }
            self.push_statement(ProgramStatement::Label(Label { name: copy_label(&ts[0].lexeme) }));
            self.push_symbol(copy_label(&ts[0].lexeme), 0);
            if ts.len() == 2 {
                return Ok(());
            }
            let ghost mid = *self;
            let r = self.add_instruction(ts, 2, line);
            proof {
                assert forall|m: MemView|
                    match parse_text_line(#[trigger] old(self).state(m), tv, line) {
                        Ok(st) => r is Ok && self.state(m) == st,
                        Err(e) => r == Err::<(), EmuError>(e),
                    } by {
                    let st2 = PState {
                        stmts: old(self).state(m).stmts.push(StmtView::Label(tv[0].1)),
                        syms: old(self).state(m).syms.push((tv[0].1, 0u32)),
                        ..old(self).state(m)
                    };
                    assert(mid.state(m) == st2);
                }
            }
            return r;
        }
        Err(EmuError::ParsingError(line))
    }
}


} // verus!
