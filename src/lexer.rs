use vstd::prelude::*;
use std::collections::VecDeque;
use crate::text::{chars_eq, chars_of};

verus! {

/// The kind of a token.
#[derive(Clone, Copy, Debug, PartialEq, Eq, Structural)]
pub enum TokenType {
    /// `.data`, `.text`, `.word` and the other known directives
    Directive,
    /// a label or data name
    Identifier,
    /// an opcode, such as `add` or `li`
    Mnemonic,
    /// `#` to the end of the line
    Comment,
    /// `,`
    Delimiter,
    Colon,
    /// `$` and the name that follows
    RegisterName,
    /// the text between two double quotes, quotes excluded
    QuotedString,
    LeftParen,
    RightParen,
    /// decimal digits, or `0x` and hex digits, with an optional leading `-`
    Integer,
    RealNumber,
    Unknown,
}

/// A token: its text, kind and 1-based source line.
#[derive(Debug, Clone)]
pub struct Token {
    pub lexeme: Vec<char>,
    pub token_type: TokenType,
    pub line_number: usize,
}

/// A token as plain values.
pub type TokenView = (TokenType, Seq<char>, int);

pub open spec fn token_view(t: Token) -> TokenView {
    (t.token_type, t.lexeme@, t.line_number as int)
}

pub open spec fn tokens_view(ts: Seq<Token>) -> Seq<TokenView> {
    ts.map_values(|t: Token| token_view(t))
}

/// A mnemonic of the source language: the core instructions and the pseudo-instructions.
#[derive(Clone, Copy, Debug, PartialEq, Eq, Structural)]
pub enum Op {
    Add,
    Addu,
    Addi,
    Addiu,
    Sub,
    Subu,
    And,
    Andi,
    Or,
    Ori,
    Xor,
    Xori,
    Nor,
    Sll,
    Srl,
    Sra,
    Slt,
    Sltu,
    Slti,
    Sltiu,
    Lui,
    Lw,
    Sw,
    Lb,
    Sb,
    Lh,
    Sh,
    J,
    Jal,
    Jr,
    Beq,
    Bne,
    Mult,
    Multu,
    Div,
    Divu,
    Mfhi,
    Mflo,
    Li,
    La,
    Move,
    Blt,
    Bgt,
    Ble,
    Bge,
}

pub const NUM_OPS: u8 = 45;

/// The mnemonic with index `i` in the table.
pub open spec fn op_at(i: int) -> Op {
    if i == 0 { Op::Add }
    else if i == 1 { Op::Addu }
    else if i == 2 { Op::Addi }
    else if i == 3 { Op::Addiu }
    else if i == 4 { Op::Sub }
    else if i == 5 { Op::Subu }
    else if i == 6 { Op::And }
    else if i == 7 { Op::Andi }
    else if i == 8 { Op::Or }
    else if i == 9 { Op::Ori }
    else if i == 10 { Op::Xor }
    else if i == 11 { Op::Xori }
    else if i == 12 { Op::Nor }
    else if i == 13 { Op::Sll }
    else if i == 14 { Op::Srl }
    else if i == 15 { Op::Sra }
    else if i == 16 { Op::Slt }
    else if i == 17 { Op::Sltu }
    else if i == 18 { Op::Slti }
    else if i == 19 { Op::Sltiu }
    else if i == 20 { Op::Lui }
    else if i == 21 { Op::Lw }
    else if i == 22 { Op::Sw }
    else if i == 23 { Op::Lb }
    else if i == 24 { Op::Sb }
    else if i == 25 { Op::Lh }
    else if i == 26 { Op::Sh }
    else if i == 27 { Op::J }
    else if i == 28 { Op::Jal }
    else if i == 29 { Op::Jr }
    else if i == 30 { Op::Beq }
    else if i == 31 { Op::Bne }
    else if i == 32 { Op::Mult }
    else if i == 33 { Op::Multu }
    else if i == 34 { Op::Div }
    else if i == 35 { Op::Divu }
    else if i == 36 { Op::Mfhi }
    else if i == 37 { Op::Mflo }
    else if i == 38 { Op::Li }
    else if i == 39 { Op::La }
    else if i == 40 { Op::Move }
    else if i == 41 { Op::Blt }
    else if i == 42 { Op::Bgt }
    else if i == 43 { Op::Ble }
    else { Op::Bge }
}

/// The source text of `x`.
pub open spec fn op_name(x: Op) -> Seq<char> {
    match x {
        Op::Add => seq!['a', 'd', 'd'],
        Op::Addu => seq!['a', 'd', 'd', 'u'],
        Op::Addi => seq!['a', 'd', 'd', 'i'],
        Op::Addiu => seq!['a', 'd', 'd', 'i', 'u'],
        Op::Sub => seq!['s', 'u', 'b'],
        Op::Subu => seq!['s', 'u', 'b', 'u'],
        Op::And => seq!['a', 'n', 'd'],
        Op::Andi => seq!['a', 'n', 'd', 'i'],
        Op::Or => seq!['o', 'r'],
        Op::Ori => seq!['o', 'r', 'i'],
        Op::Xor => seq!['x', 'o', 'r'],
        Op::Xori => seq!['x', 'o', 'r', 'i'],
        Op::Nor => seq!['n', 'o', 'r'],
        Op::Sll => seq!['s', 'l', 'l'],
        Op::Srl => seq!['s', 'r', 'l'],
        Op::Sra => seq!['s', 'r', 'a'],
        Op::Slt => seq!['s', 'l', 't'],
        Op::Sltu => seq!['s', 'l', 't', 'u'],
        Op::Slti => seq!['s', 'l', 't', 'i'],
        Op::Sltiu => seq!['s', 'l', 't', 'i', 'u'],
        Op::Lui => seq!['l', 'u', 'i'],
        Op::Lw => seq!['l', 'w'],
        Op::Sw => seq!['s', 'w'],
        Op::Lb => seq!['l', 'b'],
        Op::Sb => seq!['s', 'b'],
        Op::Lh => seq!['l', 'h'],
        Op::Sh => seq!['s', 'h'],
        Op::J => seq!['j'],
        Op::Jal => seq!['j', 'a', 'l'],
        Op::Jr => seq!['j', 'r'],
        Op::Beq => seq!['b', 'e', 'q'],
        Op::Bne => seq!['b', 'n', 'e'],
        Op::Mult => seq!['m', 'u', 'l', 't'],
        Op::Multu => seq!['m', 'u', 'l', 't', 'u'],
        Op::Div => seq!['d', 'i', 'v'],
        Op::Divu => seq!['d', 'i', 'v', 'u'],
        Op::Mfhi => seq!['m', 'f', 'h', 'i'],
        Op::Mflo => seq!['m', 'f', 'l', 'o'],
        Op::Li => seq!['l', 'i'],
        Op::La => seq!['l', 'a'],
        Op::Move => seq!['m', 'o', 'v', 'e'],
        Op::Blt => seq!['b', 'l', 't'],
        Op::Bgt => seq!['b', 'g', 't'],
        Op::Ble => seq!['b', 'l', 'e'],
        Op::Bge => seq!['b', 'g', 'e'],
    }
}

/// The first entry of the table, from index `i` on, whose text is `text`.
pub open spec fn op_from(text: Seq<char>, i: int) -> Option<Op>
    decreases 45 - i,
{
    if i < 0 || i >= 45 {
        None
    } else if op_name(op_at(i)) == text {
        Some(op_at(i))
    } else {
        op_from(text, i + 1)
    }
}

pub open spec fn op_of_text(text: Seq<char>) -> Option<Op> {
    op_from(text, 0)
}

fn op_at_exec(i: u8) -> (r: Op)
    ensures
        r == op_at(i as int),
{
    if i == 0 { Op::Add }
    else if i == 1 { Op::Addu }
    else if i == 2 { Op::Addi }
    else if i == 3 { Op::Addiu }
    else if i == 4 { Op::Sub }
    else if i == 5 { Op::Subu }
    else if i == 6 { Op::And }
    else if i == 7 { Op::Andi }
    else if i == 8 { Op::Or }
    else if i == 9 { Op::Ori }
    else if i == 10 { Op::Xor }
    else if i == 11 { Op::Xori }
    else if i == 12 { Op::Nor }
    else if i == 13 { Op::Sll }
    else if i == 14 { Op::Srl }
    else if i == 15 { Op::Sra }
    else if i == 16 { Op::Slt }
    else if i == 17 { Op::Sltu }
    else if i == 18 { Op::Slti }
    else if i == 19 { Op::Sltiu }
    else if i == 20 { Op::Lui }
    else if i == 21 { Op::Lw }
    else if i == 22 { Op::Sw }
    else if i == 23 { Op::Lb }
    else if i == 24 { Op::Sb }
    else if i == 25 { Op::Lh }
    else if i == 26 { Op::Sh }
    else if i == 27 { Op::J }
    else if i == 28 { Op::Jal }
    else if i == 29 { Op::Jr }
    else if i == 30 { Op::Beq }
    else if i == 31 { Op::Bne }
    else if i == 32 { Op::Mult }
    else if i == 33 { Op::Multu }
    else if i == 34 { Op::Div }
    else if i == 35 { Op::Divu }
    else if i == 36 { Op::Mfhi }
    else if i == 37 { Op::Mflo }
    else if i == 38 { Op::Li }
    else if i == 39 { Op::La }
    else if i == 40 { Op::Move }
    else if i == 41 { Op::Blt }
    else if i == 42 { Op::Bgt }
    else if i == 43 { Op::Ble }
    else { Op::Bge }
}

fn op_chars(x: Op) -> (r: Vec<char>)
    ensures
        r@ == op_name(x),
{
    match x {
        Op::Add => vec!['a', 'd', 'd'],
        Op::Addu => vec!['a', 'd', 'd', 'u'],
        Op::Addi => vec!['a', 'd', 'd', 'i'],
        Op::Addiu => vec!['a', 'd', 'd', 'i', 'u'],
        Op::Sub => vec!['s', 'u', 'b'],
        Op::Subu => vec!['s', 'u', 'b', 'u'],
        Op::And => vec!['a', 'n', 'd'],
        Op::Andi => vec!['a', 'n', 'd', 'i'],
        Op::Or => vec!['o', 'r'],
        Op::Ori => vec!['o', 'r', 'i'],
        Op::Xor => vec!['x', 'o', 'r'],
        Op::Xori => vec!['x', 'o', 'r', 'i'],
        Op::Nor => vec!['n', 'o', 'r'],
        Op::Sll => vec!['s', 'l', 'l'],
        Op::Srl => vec!['s', 'r', 'l'],
        Op::Sra => vec!['s', 'r', 'a'],
        Op::Slt => vec!['s', 'l', 't'],
        Op::Sltu => vec!['s', 'l', 't', 'u'],
        Op::Slti => vec!['s', 'l', 't', 'i'],
        Op::Sltiu => vec!['s', 'l', 't', 'i', 'u'],
        Op::Lui => vec!['l', 'u', 'i'],
        Op::Lw => vec!['l', 'w'],
        Op::Sw => vec!['s', 'w'],
        Op::Lb => vec!['l', 'b'],
        Op::Sb => vec!['s', 'b'],
        Op::Lh => vec!['l', 'h'],
        Op::Sh => vec!['s', 'h'],
        Op::J => vec!['j'],
        Op::Jal => vec!['j', 'a', 'l'],
        Op::Jr => vec!['j', 'r'],
        Op::Beq => vec!['b', 'e', 'q'],
        Op::Bne => vec!['b', 'n', 'e'],
        Op::Mult => vec!['m', 'u', 'l', 't'],
        Op::Multu => vec!['m', 'u', 'l', 't', 'u'],
        Op::Div => vec!['d', 'i', 'v'],
        Op::Divu => vec!['d', 'i', 'v', 'u'],
        Op::Mfhi => vec!['m', 'f', 'h', 'i'],
        Op::Mflo => vec!['m', 'f', 'l', 'o'],
        Op::Li => vec!['l', 'i'],
        Op::La => vec!['l', 'a'],
        Op::Move => vec!['m', 'o', 'v', 'e'],
        Op::Blt => vec!['b', 'l', 't'],
        Op::Bgt => vec!['b', 'g', 't'],
        Op::Ble => vec!['b', 'l', 'e'],
        Op::Bge => vec!['b', 'g', 'e'],
    }
}

/// The mnemonic whose text is `text`, if any.
pub fn op_lookup(text: &[char]) -> (r: Option<Op>)
    ensures
        r == op_of_text(text@),
{
    let mut i: u8 = 0;
    while i < NUM_OPS
        invariant
            i <= NUM_OPS,
            op_of_text(text@) == op_from(text@, i as int),
        decreases NUM_OPS - i,
    {
        let x = op_at_exec(i);
        let name = op_chars(x);
        if chars_eq(name.as_slice(), text) {
            return Some(x);
        }
        i += 1;
    }
    None
}
/// An assembler directive.
#[derive(Clone, Copy, Debug, PartialEq, Eq, Structural)]
pub enum Directive {
    Data,
    Text,
    Globl,
    Ascii,
    Asciiz,
    Word,
    Byte,
    Half,
    Space,
    Float,
    Double,
}

pub const NUM_DIRECTIVES: u8 = 11;

/// The directive with index `i` in the table.
pub open spec fn directive_at(i: int) -> Directive {
    if i == 0 { Directive::Data }
    else if i == 1 { Directive::Text }
    else if i == 2 { Directive::Globl }
    else if i == 3 { Directive::Ascii }
    else if i == 4 { Directive::Asciiz }
    else if i == 5 { Directive::Word }
    else if i == 6 { Directive::Byte }
    else if i == 7 { Directive::Half }
    else if i == 8 { Directive::Space }
    else if i == 9 { Directive::Float }
    else { Directive::Double }
}

/// The source text of `x`.
pub open spec fn directive_name(x: Directive) -> Seq<char> {
    match x {
        Directive::Data => seq!['.', 'd', 'a', 't', 'a'],
        Directive::Text => seq!['.', 't', 'e', 'x', 't'],
        Directive::Globl => seq!['.', 'g', 'l', 'o', 'b', 'l'],
        Directive::Ascii => seq!['.', 'a', 's', 'c', 'i', 'i'],
        Directive::Asciiz => seq!['.', 'a', 's', 'c', 'i', 'i', 'z'],
        Directive::Word => seq!['.', 'w', 'o', 'r', 'd'],
        Directive::Byte => seq!['.', 'b', 'y', 't', 'e'],
        Directive::Half => seq!['.', 'h', 'a', 'l', 'f'],
        Directive::Space => seq!['.', 's', 'p', 'a', 'c', 'e'],
        Directive::Float => seq!['.', 'f', 'l', 'o', 'a', 't'],
        Directive::Double => seq!['.', 'd', 'o', 'u', 'b', 'l', 'e'],
    }
}

/// The first entry of the table, from index `i` on, whose text is `text`.
pub open spec fn directive_from(text: Seq<char>, i: int) -> Option<Directive>
    decreases 11 - i,
{
    if i < 0 || i >= 11 {
        None
    } else if directive_name(directive_at(i)) == text {
        Some(directive_at(i))
    } else {
        directive_from(text, i + 1)
    }
}

pub open spec fn directive_of_text(text: Seq<char>) -> Option<Directive> {
    directive_from(text, 0)
}

fn directive_at_exec(i: u8) -> (r: Directive)
    ensures
        r == directive_at(i as int),
{
    if i == 0 { Directive::Data }
    else if i == 1 { Directive::Text }
    else if i == 2 { Directive::Globl }
    else if i == 3 { Directive::Ascii }
    else if i == 4 { Directive::Asciiz }
    else if i == 5 { Directive::Word }
    else if i == 6 { Directive::Byte }
    else if i == 7 { Directive::Half }
    else if i == 8 { Directive::Space }
    else if i == 9 { Directive::Float }
    else { Directive::Double }
}

fn directive_chars(x: Directive) -> (r: Vec<char>)
    ensures
        r@ == directive_name(x),
{
    match x {
        Directive::Data => vec!['.', 'd', 'a', 't', 'a'],
        Directive::Text => vec!['.', 't', 'e', 'x', 't'],
        Directive::Globl => vec!['.', 'g', 'l', 'o', 'b', 'l'],
        Directive::Ascii => vec!['.', 'a', 's', 'c', 'i', 'i'],
        Directive::Asciiz => vec!['.', 'a', 's', 'c', 'i', 'i', 'z'],
        Directive::Word => vec!['.', 'w', 'o', 'r', 'd'],
        Directive::Byte => vec!['.', 'b', 'y', 't', 'e'],
        Directive::Half => vec!['.', 'h', 'a', 'l', 'f'],
        Directive::Space => vec!['.', 's', 'p', 'a', 'c', 'e'],
        Directive::Float => vec!['.', 'f', 'l', 'o', 'a', 't'],
        Directive::Double => vec!['.', 'd', 'o', 'u', 'b', 'l', 'e'],
    }
}

/// The directive whose text is `text`, if any.
pub fn directive_lookup(text: &[char]) -> (r: Option<Directive>)
    ensures
        r == directive_of_text(text@),
{
    let mut i: u8 = 0;
    while i < NUM_DIRECTIVES
        invariant
            i <= NUM_DIRECTIVES,
            directive_of_text(text@) == directive_from(text@, i as int),
        decreases NUM_DIRECTIVES - i,
    {
        let x = directive_at_exec(i);
        let name = directive_chars(x);
        if chars_eq(name.as_slice(), text) {
            return Some(x);
        }
        i += 1;
    }
    None
}
/// White space as Unicode defines it.
pub open spec fn is_white(c: char) -> bool {
    let u = c as u32;
    (9 <= u <= 13) || u == 32 || u == 0x85 || u == 0xA0 || u == 0x1680 || (0x2000 <= u <= 0x200A)
        || u == 0x2028 || u == 0x2029 || u == 0x202F || u == 0x205F || u == 0x3000
}

pub open spec fn is_digit(c: char) -> bool {
    '0' <= c <= '9'
}

pub open spec fn is_hex(c: char) -> bool {
    is_digit(c) || ('a' <= c <= 'f') || ('A' <= c <= 'F')
}

pub open spec fn is_alpha(c: char) -> bool {
    ('a' <= c <= 'z') || ('A' <= c <= 'Z')
}

/// ASCII punctuation: the printable characters that are neither letters nor digits.
pub open spec fn is_punct(c: char) -> bool {
    ('!' <= c <= '/') || (':' <= c <= '@') || ('[' <= c <= '`') || ('{' <= c <= '~')
}

/// A character that ends a word: white space, or punctuation other than `_` and `$`.
pub open spec fn is_stop(c: char) -> bool {
    is_white(c) || (is_punct(c) && c != '_' && c != '$')
}

fn white(c: char) -> (r: bool)
    ensures
        r == is_white(c),
{
    let u = c as u32;
    (9 <= u && u <= 13) || u == 32 || u == 0x85 || u == 0xA0 || u == 0x1680 || (0x2000 <= u && u
        <= 0x200A) || u == 0x2028 || u == 0x2029 || u == 0x202F || u == 0x205F || u == 0x3000
}

fn digit(c: char) -> (r: bool)
    ensures
        r == is_digit(c),
{
    '0' <= c && c <= '9'
}

fn hex(c: char) -> (r: bool)
    ensures
        r == is_hex(c),
{
    digit(c) || ('a' <= c && c <= 'f') || ('A' <= c && c <= 'F')
}

fn stop(c: char) -> (r: bool)
    ensures
        r == is_stop(c),
{
    let punct = ('!' <= c && c <= '/') || (':' <= c && c <= '@') || ('[' <= c && c <= '`') || ('{'
        <= c && c <= '~');
    white(c) || (punct && c != '_' && c != '$')
}

/// The end of the line that holds position `j`: the next newline, or the end.
pub open spec fn eol(s: Seq<char>, j: int) -> int
    decreases s.len() - j,
{
    if j >= s.len() {
        s.len() as int
    } else if s[j] == '\n' {
        j
    } else {
        eol(s, j + 1)
    }
}

/// The end of the word that continues at `j`.
pub open spec fn word_end(s: Seq<char>, j: int) -> int
    decreases s.len() - j,
{
    if j >= s.len() {
        s.len() as int
    } else if is_stop(s[j]) {
        j
    } else {
        word_end(s, j + 1)
    }
}

pub open spec fn digits_end(s: Seq<char>, j: int) -> int
    decreases s.len() - j,
{
    if j >= s.len() {
        s.len() as int
    } else if !is_digit(s[j]) {
        j
    } else {
        digits_end(s, j + 1)
    }
}

pub open spec fn hex_end(s: Seq<char>, j: int) -> int
    decreases s.len() - j,
{
    if j >= s.len() {
        s.len() as int
    } else if !is_hex(s[j]) {
        j
    } else {
        hex_end(s, j + 1)
    }
}

/// The end of the number that starts at `j`: `0x` and hex digits, or decimal digits.
pub open spec fn number_end(s: Seq<char>, j: int) -> int {
    if s.len() - j > 2 && s[j] == '0' && (s[j + 1] == 'x' || s[j + 1] == 'X') && is_hex(s[j + 2]) {
        hex_end(s, j + 2)
    } else {
        digits_end(s, j)
    }
}

/// The first double quote at or after `j`, before `end`, that no backslash precedes.
pub open spec fn closing_quote(s: Seq<char>, j: int, end: int) -> Option<int>
    decreases end - j,
{
    if j >= end {
        None
    } else if s[j] == '"' && s[j - 1] != '\\' {
        Some(j)
    } else {
        closing_quote(s, j + 1, end)
    }
}

/// The token that starts at `i` (none for white space), as kind and text
/// range, and where scanning goes on.
pub open spec fn scan(s: Seq<char>, i: int) -> (Option<(TokenType, int, int)>, int) {
    let c = s[i];
    if c == '#' {
        (Some((TokenType::Comment, i, eol(s, i))), eol(s, i))
    } else if c == '"' {
        match closing_quote(s, i + 1, eol(s, i)) {
            Some(k) => (Some((TokenType::QuotedString, i + 1, k)), k + 1),
            None => (Some((TokenType::Unknown, i, word_end(s, i + 1))), word_end(s, i + 1)),
        }
    } else if c == ',' {
        (Some((TokenType::Delimiter, i, i + 1)), i + 1)
    } else if c == ':' {
        (Some((TokenType::Colon, i, i + 1)), i + 1)
    } else if c == '(' {
        (Some((TokenType::LeftParen, i, i + 1)), i + 1)
    } else if c == ')' {
        (Some((TokenType::RightParen, i, i + 1)), i + 1)
    } else if c == '.' {
        let e = word_end(s, i + 1);
        let k = if directive_of_text(s.subrange(i, e)) is Some {
            TokenType::Directive
        } else {
            TokenType::Unknown
        };
        (Some((k, i, e)), e)
    } else if c == '$' {
        (Some((TokenType::RegisterName, i, word_end(s, i + 1))), word_end(s, i + 1))
    } else if c == '-' && i + 1 < s.len() && is_digit(s[i + 1]) {
        (Some((TokenType::Integer, i, number_end(s, i + 1))), number_end(s, i + 1))
    } else if is_digit(c) {
        (Some((TokenType::Integer, i, number_end(s, i))), number_end(s, i))
    } else if is_alpha(c) || c == '_' {
        let e = word_end(s, i + 1);
        let k = if op_of_text(s.subrange(i, e)) is Some {
            TokenType::Mnemonic
        } else {
            TokenType::Identifier
        };
        (Some((k, i, e)), e)
    } else if is_white(c) {
        (None, i + 1)
    } else {
        (Some((TokenType::Unknown, i, word_end(s, i + 1))), word_end(s, i + 1))
    }
}

/// The tokens of `s` from position `i` on, where `i` is on source line `line`.
pub open spec fn lex_from(s: Seq<char>, i: int, line: int) -> Seq<TokenView>
    decreases s.len() - i,
{
    if i < 0 || i >= s.len() {
        Seq::empty()
    } else if s[i] == '\n' {
        lex_from(s, i + 1, line + 1)
    } else {
        let (t, n) = scan(s, i);
        let rest = if i < n <= s.len() {
            lex_from(s, n, line)
        } else {
            Seq::empty()
        };
        match t {
            Some((k, a, b)) => seq![(k, s.subrange(a, b), line)] + rest,
            None => rest,
        }
    }
}

/// The tokens of a source text, lines numbered from 1.
pub open spec fn lex(s: Seq<char>) -> Seq<TokenView> {
    lex_from(s, 0, 1)
}

fn eol_at(s: &Vec<char>, j: usize) -> (r: usize)
    requires
        j <= s@.len(),
    ensures
        r == eol(s@, j as int),
        j <= r <= s@.len(),
        j < s@.len() && s@[j as int] != '\n' ==> r > j,
{
    let mut k = j;
    while k < s.len() && s[k] != '\n'
        invariant
            j <= k <= s@.len(),
            eol(s@, j as int) == eol(s@, k as int),
        decreases s@.len() - k,
    {
        k += 1;
    }
    k
}

fn word_end_at(s: &Vec<char>, j: usize) -> (r: usize)
    requires
        j <= s@.len(),
    ensures
        r == word_end(s@, j as int),
        j <= r <= s@.len(),
{
    let mut k = j;
    while k < s.len() && !stop(s[k])
        invariant
            j <= k <= s@.len(),
            word_end(s@, j as int) == word_end(s@, k as int),
        decreases s@.len() - k,
    {
        k += 1;
    }
    k
}

fn digits_end_at(s: &Vec<char>, j: usize) -> (r: usize)
    requires
        j <= s@.len(),
    ensures
        r == digits_end(s@, j as int),
        j <= r <= s@.len(),
        j < s@.len() && is_digit(s@[j as int]) ==> r > j,
{
    let mut k = j;
    while k < s.len() && digit(s[k])
        invariant
            j <= k <= s@.len(),
            digits_end(s@, j as int) == digits_end(s@, k as int),
        decreases s@.len() - k,
    {
        k += 1;
    }
    k
}

fn hex_end_at(s: &Vec<char>, j: usize) -> (r: usize)
    requires
        j <= s@.len(),
    ensures
        r == hex_end(s@, j as int),
        j <= r <= s@.len(),
{
    let mut k = j;
    while k < s.len() && hex(s[k])
        invariant
            j <= k <= s@.len(),
            hex_end(s@, j as int) == hex_end(s@, k as int),
        decreases s@.len() - k,
    {
        k += 1;
    }
    k
}

fn number_end_at(s: &Vec<char>, j: usize) -> (r: usize)
    requires
        j < s@.len(),
        is_digit(s@[j as int]),
    ensures
        r == number_end(s@, j as int),
        j < r <= s@.len(),
{
    if s.len() - j > 2 && s[j] == '0' && (s[j + 1] == 'x' || s[j + 1] == 'X') && hex(s[j + 2]) {
        hex_end_at(s, j + 2)
    } else {
        let r = digits_end_at(s, j);
        assert(r != j);
        r
    }
}

fn closing_quote_at(s: &Vec<char>, j: usize, end: usize) -> (r: Option<usize>)
    requires
        1 <= j <= end <= s@.len(),
    ensures
        match closing_quote(s@, j as int, end as int) {
            Some(k) => r == Some(k as usize) && j <= k < end,
            None => r is None,
        },
{
    let mut k = j;
    while k < end
        invariant
            j <= k <= end,
            end <= s@.len(),
            1 <= j,
            closing_quote(s@, j as int, end as int) == closing_quote(s@, k as int, end as int),
        decreases end - k,
    {
        if s[k] == '"' && s[k - 1] != '\\' {
            return Some(k);
        }
        k += 1;
    }
    None
}

/// The characters of `s` from `a` up to `b`.
pub fn slice_chars(s: &Vec<char>, a: usize, b: usize) -> (r: Vec<char>)
    requires
        a <= b <= s@.len(),
    ensures
        r@ == s@.subrange(a as int, b as int),
{
    let mut out: Vec<char> = Vec::new();
    let mut k = a;
    while k < b
        invariant
            a <= k <= b,
            b <= s@.len(),
            out@ == s@.subrange(a as int, k as int),
        decreases b - k,
    {
        out.push(s[k]);
        k += 1;
        assert(out@ =~= s@.subrange(a as int, k as int));
    }
    out
}

fn token_at(s: &Vec<char>, kind: TokenType, a: usize, b: usize, line: usize) -> (r: Token)
    requires
        a <= b <= s@.len(),
    ensures
        token_view(r) == (kind, s@.subrange(a as int, b as int), line as int),
{
    Token { lexeme: slice_chars(s, a, b), token_type: kind, line_number: line }
}

/// Scans the token at `i`, as `scan` says.
fn scan_at(s: &Vec<char>, i: usize, line: usize) -> (r: (Option<Token>, usize))
    requires
        i < s@.len(),
        s@.len() < usize::MAX,
        s@[i as int] != '\n',
    ensures
        i < r.1 <= s@.len(),
        r.1 == scan(s@, i as int).1,
        match scan(s@, i as int).0 {
            Some((k, a, b)) => r.0 is Some && token_view(r.0->0) == (k, s@.subrange(a, b), line as int),
            None => r.0 is None,
        },
{
    let c = s[i];
    if c == '#' {
        let e = eol_at(s, i);
        assert(e != i);
        (Some(token_at(s, TokenType::Comment, i, e, line)), e)
    } else if c == '"' {
        let end = eol_at(s, i);
        match closing_quote_at(s, i + 1, end) {
            Some(k) => (Some(token_at(s, TokenType::QuotedString, i + 1, k, line)), k + 1),
            None => {
                let e = word_end_at(s, i + 1);
                (Some(token_at(s, TokenType::Unknown, i, e, line)), e)
            },
        }
    } else if c == ',' {
        (Some(token_at(s, TokenType::Delimiter, i, i + 1, line)), i + 1)
    } else if c == ':' {
        (Some(token_at(s, TokenType::Colon, i, i + 1, line)), i + 1)
    } else if c == '(' {
        (Some(token_at(s, TokenType::LeftParen, i, i + 1, line)), i + 1)
    } else if c == ')' {
        (Some(token_at(s, TokenType::RightParen, i, i + 1, line)), i + 1)
    } else if c == '.' {
        let e = word_end_at(s, i + 1);
        let text = slice_chars(s, i, e);
        let k = if directive_lookup(text.as_slice()).is_some() {
            TokenType::Directive
        } else {
            TokenType::Unknown
        };
        (Some(Token { lexeme: text, token_type: k, line_number: line }), e)
    } else if c == '$' {
        let e = word_end_at(s, i + 1);
        (Some(token_at(s, TokenType::RegisterName, i, e, line)), e)
    } else if c == '-' && i + 1 < s.len() && digit(s[i + 1]) {
        let e = number_end_at(s, i + 1);
        (Some(token_at(s, TokenType::Integer, i, e, line)), e)
    } else if digit(c) {
        let e = number_end_at(s, i);
        (Some(token_at(s, TokenType::Integer, i, e, line)), e)
    } else if ('a' <= c && c <= 'z') || ('A' <= c && c <= 'Z') || c == '_' {
        let e = word_end_at(s, i + 1);
        let text = slice_chars(s, i, e);
        let k = if op_lookup(text.as_slice()).is_some() {
            TokenType::Mnemonic
        } else {
            TokenType::Identifier
        };
        (Some(Token { lexeme: text, token_type: k, line_number: line }), e)
    } else if white(c) {
        (None, i + 1)
    } else {
        let e = word_end_at(s, i + 1);
        (Some(token_at(s, TokenType::Unknown, i, e, line)), e)
    }
}

/// The tokens of `code`, as `lex` says.
pub fn tokenize_chars(s: &Vec<char>) -> (r: Vec<Token>)
    requires
        s@.len() < usize::MAX,
    ensures
        tokens_view(r@) == lex(s@),
{
    let mut out: Vec<Token> = Vec::new();
    let mut i: usize = 0;
    let mut line: usize = 1;
    while i < s.len()
        invariant
            i <= s@.len(),
            s@.len() < usize::MAX,
            1 <= line <= i + 1,
            tokens_view(out@) + lex_from(s@, i as int, line as int) == lex(s@),
        decreases s@.len() - i,
    {
        if s[i] == '\n' {
            line += 1;
            i += 1;
        } else {
            let (t, n) = scan_at(s, i, line);
            match t {
                Some(tok) => {
                    let ghost before = out@;
                    out.push(tok);
                    proof {
                        assert(tokens_view(out@) =~= tokens_view(before).push(token_view(tok)));
                    }
                },
                None => {},
            }
            i = n;
        }
    }
    out
}

/// Produces tokens from source text and hands them out in order.
pub struct Lexer {
    pub tokens: VecDeque<Token>,
    pub line_number: usize,
}

impl Lexer {
    pub fn new() -> (r: Self)
        ensures
            r.tokens@.len() == 0,
            r.line_number == 1,
    {
        Lexer { tokens: VecDeque::new(), line_number: 1 }
    }

    /// Tokenizes `code`, returns its tokens and queues them for `get_token`.
    pub fn tokenize(&mut self, code: &str) -> (r: Vec<Token>)
        requires
            code@.len() < usize::MAX,
        ensures
            tokens_view(r@) == lex(code@),
            tokens_view(final(self).tokens@) == lex(code@),
    {
        let chars = chars_of(code);
        let r = tokenize_chars(&chars);
        let mut rest = tokenize_chars(&chars);
        let ghost all = rest@;
        let mut queue: VecDeque<Token> = VecDeque::new();
        assert(all.subrange(0, all.len() as int) =~= all);
        while rest.len() > 0
            invariant
                rest@.len() <= all.len(),
                rest@ == all.subrange(0, rest@.len() as int),
                queue@ == all.subrange(rest@.len() as int, all.len() as int),
            decreases rest@.len(),
        {
            match rest.pop() {
                Some(t) => {
                    queue.push_front(t);
                    assert(queue@ =~= all.subrange(rest@.len() as int, all.len() as int));
                    assert(rest@ =~= all.subrange(0, rest@.len() as int));
                },
                None => {},
            }
        }
        assert(queue@ =~= all);
        self.tokens = queue;
        self.line_number = 1;
        r
    }

    /// Takes the next queued token.
    #[allow(non_snake_case)]
    pub fn getToken(&mut self) -> (r: Option<Token>)
        ensures
            old(self).tokens@.len() == 0 ==> r is None && final(self).tokens@ == old(self).tokens@,
            old(self).tokens@.len() > 0 ==> r == Some(old(self).tokens@[0])
                && final(self).tokens@ == old(self).tokens@.drop_first(),
    {
        self.tokens.pop_front()
    }

    /// The next queued token, left in the queue.
    pub fn peek(&self) -> (r: Option<&Token>)
        ensures
            self.tokens@.len() == 0 ==> r is None,
            self.tokens@.len() > 0 ==> r == Some(&self.tokens@[0]),
    {
        if self.tokens.len() > 0 {
            Some(&self.tokens[0])
        } else {
            None
        }
    }
}

} // verus!
