use vstd::prelude::*;

use crate::float_bits::float_decimal_of_bits;
use crate::textops::{decimal_width, push_decimal, push_spaces, spec_dec_digits, spec_spaces};
use vstd::string::StringExecFns;

verus! {

/// One instruction of the register machine. Register operands are 8-bit
/// indices into the bank of 256 slots; the variant itself carries the
/// operand types, so the interpreter never re-examines value tags.
///
/// Binary operations are laid out as `(lhs, rhs, destination)`; `MulStr`
/// as `(string, count, destination)`. `Jump`/`JumpCond` offsets are
/// relative to the program counter after its post-instruction increment.
/// Floating-point immediates are IEEE-754 binary64 bit patterns.
#[derive(Clone, Debug, PartialEq)]
pub enum Opcode {
    Or(u8, u8, u8),
    And(u8, u8, u8),

    EqualInt(u8, u8, u8),
    EqualFloat(u8, u8, u8),
    EqualBool(u8, u8, u8),
    EqualStr(u8, u8, u8),
    EqualChar(u8, u8, u8),

    NotEqualInt(u8, u8, u8),
    NotEqualFloat(u8, u8, u8),
    NotEqualBool(u8, u8, u8),
    NotEqualStr(u8, u8, u8),
    NotEqualChar(u8, u8, u8),

    LessThanInt(u8, u8, u8),
    LessThanFloat(u8, u8, u8),
    LessThanStr(u8, u8, u8),
    LessThanChar(u8, u8, u8),

    LessEqInt(u8, u8, u8),
    LessEqFloat(u8, u8, u8),
    LessEqStr(u8, u8, u8),
    LessEqChar(u8, u8, u8),

    GreaterThanInt(u8, u8, u8),
    GreaterThanFloat(u8, u8, u8),
    GreaterThanStr(u8, u8, u8),
    GreaterThanChar(u8, u8, u8),

    GreaterEqInt(u8, u8, u8),
    GreaterEqFloat(u8, u8, u8),
    GreaterEqStr(u8, u8, u8),
    GreaterEqChar(u8, u8, u8),

    AddInt(u8, u8, u8),
    AddFloat(u8, u8, u8),
    AddStr(u8, u8, u8),

    SubInt(u8, u8, u8),
    SubFloat(u8, u8, u8),

    MulInt(u8, u8, u8),
    MulFloat(u8, u8, u8),
    MulStr(u8, u8, u8),

    DivInt(u8, u8, u8),
    DivFloat(u8, u8, u8),

    ModInt(u8, u8, u8),
    ModFloat(u8, u8, u8),

    NegInt(u8, u8),
    NegFloat(u8, u8),
    NegBool(u8, u8),

    LoadInt(u8, i64),
    LoadFloat(u8, u64),
    LoadBool(u8, bool),
    LoadStr(u8, String),
    LoadChar(u8, char),

    Copy(u8, u8),

    Save(u8),
    Jump(i16),
    JumpCond(u8, i16),
    Error,
}

/// The model of an instruction: as `Opcode`, with the string immediate of
/// `LoadStr` taken as a sequence of chars.
pub enum OpcodeModel {
    Or(u8, u8, u8),
    And(u8, u8, u8),

    EqualInt(u8, u8, u8),
    EqualFloat(u8, u8, u8),
    EqualBool(u8, u8, u8),
    EqualStr(u8, u8, u8),
    EqualChar(u8, u8, u8),

    NotEqualInt(u8, u8, u8),
    NotEqualFloat(u8, u8, u8),
    NotEqualBool(u8, u8, u8),
    NotEqualStr(u8, u8, u8),
    NotEqualChar(u8, u8, u8),

    LessThanInt(u8, u8, u8),
    LessThanFloat(u8, u8, u8),
    LessThanStr(u8, u8, u8),
    LessThanChar(u8, u8, u8),

    LessEqInt(u8, u8, u8),
    LessEqFloat(u8, u8, u8),
    LessEqStr(u8, u8, u8),
    LessEqChar(u8, u8, u8),

    GreaterThanInt(u8, u8, u8),
    GreaterThanFloat(u8, u8, u8),
    GreaterThanStr(u8, u8, u8),
    GreaterThanChar(u8, u8, u8),

    GreaterEqInt(u8, u8, u8),
    GreaterEqFloat(u8, u8, u8),
    GreaterEqStr(u8, u8, u8),
    GreaterEqChar(u8, u8, u8),

    AddInt(u8, u8, u8),
    AddFloat(u8, u8, u8),
    AddStr(u8, u8, u8),

    SubInt(u8, u8, u8),
    SubFloat(u8, u8, u8),

    MulInt(u8, u8, u8),
    MulFloat(u8, u8, u8),
    MulStr(u8, u8, u8),

    DivInt(u8, u8, u8),
    DivFloat(u8, u8, u8),

    ModInt(u8, u8, u8),
    ModFloat(u8, u8, u8),

    NegInt(u8, u8),
    NegFloat(u8, u8),
    NegBool(u8, u8),

    LoadInt(u8, i64),
    LoadFloat(u8, u64),
    LoadBool(u8, bool),
    LoadStr(u8, Seq<char>),
    LoadChar(u8, char),

    Copy(u8, u8),

    Save(u8),
    Jump(i16),
    JumpCond(u8, i16),
    Error,
}

impl View for Opcode {
    type V = OpcodeModel;

    open spec fn view(&self) -> OpcodeModel {
        match self {
            Opcode::Or(a, b, c) => OpcodeModel::Or(*a, *b, *c),
            Opcode::And(a, b, c) => OpcodeModel::And(*a, *b, *c),
            Opcode::EqualInt(a, b, c) => OpcodeModel::EqualInt(*a, *b, *c),
            Opcode::EqualFloat(a, b, c) => OpcodeModel::EqualFloat(*a, *b, *c),
            Opcode::EqualBool(a, b, c) => OpcodeModel::EqualBool(*a, *b, *c),
            Opcode::EqualStr(a, b, c) => OpcodeModel::EqualStr(*a, *b, *c),
            Opcode::EqualChar(a, b, c) => OpcodeModel::EqualChar(*a, *b, *c),
            Opcode::NotEqualInt(a, b, c) => OpcodeModel::NotEqualInt(*a, *b, *c),
            Opcode::NotEqualFloat(a, b, c) => OpcodeModel::NotEqualFloat(*a, *b, *c),
            Opcode::NotEqualBool(a, b, c) => OpcodeModel::NotEqualBool(*a, *b, *c),
            Opcode::NotEqualStr(a, b, c) => OpcodeModel::NotEqualStr(*a, *b, *c),
            Opcode::NotEqualChar(a, b, c) => OpcodeModel::NotEqualChar(*a, *b, *c),
            Opcode::LessThanInt(a, b, c) => OpcodeModel::LessThanInt(*a, *b, *c),
            Opcode::LessThanFloat(a, b, c) => OpcodeModel::LessThanFloat(*a, *b, *c),
            Opcode::LessThanStr(a, b, c) => OpcodeModel::LessThanStr(*a, *b, *c),
            Opcode::LessThanChar(a, b, c) => OpcodeModel::LessThanChar(*a, *b, *c),
            Opcode::LessEqInt(a, b, c) => OpcodeModel::LessEqInt(*a, *b, *c),
            Opcode::LessEqFloat(a, b, c) => OpcodeModel::LessEqFloat(*a, *b, *c),
            Opcode::LessEqStr(a, b, c) => OpcodeModel::LessEqStr(*a, *b, *c),
            Opcode::LessEqChar(a, b, c) => OpcodeModel::LessEqChar(*a, *b, *c),
            Opcode::GreaterThanInt(a, b, c) => OpcodeModel::GreaterThanInt(*a, *b, *c),
            Opcode::GreaterThanFloat(a, b, c) => OpcodeModel::GreaterThanFloat(*a, *b, *c),
            Opcode::GreaterThanStr(a, b, c) => OpcodeModel::GreaterThanStr(*a, *b, *c),
            Opcode::GreaterThanChar(a, b, c) => OpcodeModel::GreaterThanChar(*a, *b, *c),
            Opcode::GreaterEqInt(a, b, c) => OpcodeModel::GreaterEqInt(*a, *b, *c),
            Opcode::GreaterEqFloat(a, b, c) => OpcodeModel::GreaterEqFloat(*a, *b, *c),
            Opcode::GreaterEqStr(a, b, c) => OpcodeModel::GreaterEqStr(*a, *b, *c),
            Opcode::GreaterEqChar(a, b, c) => OpcodeModel::GreaterEqChar(*a, *b, *c),
            Opcode::AddInt(a, b, c) => OpcodeModel::AddInt(*a, *b, *c),
            Opcode::AddFloat(a, b, c) => OpcodeModel::AddFloat(*a, *b, *c),
            Opcode::AddStr(a, b, c) => OpcodeModel::AddStr(*a, *b, *c),
            Opcode::SubInt(a, b, c) => OpcodeModel::SubInt(*a, *b, *c),
            Opcode::SubFloat(a, b, c) => OpcodeModel::SubFloat(*a, *b, *c),
            Opcode::MulInt(a, b, c) => OpcodeModel::MulInt(*a, *b, *c),
            Opcode::MulFloat(a, b, c) => OpcodeModel::MulFloat(*a, *b, *c),
            Opcode::MulStr(a, b, c) => OpcodeModel::MulStr(*a, *b, *c),
            Opcode::DivInt(a, b, c) => OpcodeModel::DivInt(*a, *b, *c),
            Opcode::DivFloat(a, b, c) => OpcodeModel::DivFloat(*a, *b, *c),
            Opcode::ModInt(a, b, c) => OpcodeModel::ModInt(*a, *b, *c),
            Opcode::ModFloat(a, b, c) => OpcodeModel::ModFloat(*a, *b, *c),
            Opcode::NegInt(a, b) => OpcodeModel::NegInt(*a, *b),
            Opcode::NegFloat(a, b) => OpcodeModel::NegFloat(*a, *b),
            Opcode::NegBool(a, b) => OpcodeModel::NegBool(*a, *b),
            Opcode::LoadInt(a, v) => OpcodeModel::LoadInt(*a, *v),
            Opcode::LoadFloat(a, v) => OpcodeModel::LoadFloat(*a, *v),
            Opcode::LoadBool(a, v) => OpcodeModel::LoadBool(*a, *v),
            Opcode::LoadStr(a, v) => OpcodeModel::LoadStr(*a, v@),
            Opcode::LoadChar(a, v) => OpcodeModel::LoadChar(*a, *v),
            Opcode::Copy(a, b) => OpcodeModel::Copy(*a, *b),
            Opcode::Save(a) => OpcodeModel::Save(*a),
            Opcode::Jump(o) => OpcodeModel::Jump(*o),
            Opcode::JumpCond(a, o) => OpcodeModel::JumpCond(*a, *o),
            Opcode::Error => OpcodeModel::Error,
        }
    }
}


/// The decimal rendering of a signed value.
pub open spec fn spec_signed_text(v: int) -> Seq<char> {
    if v >= 0 {
        spec_dec_digits(v as nat)
    } else {
        seq!['-'] + spec_dec_digits((-v) as nat)
    }
}

/// A register operand: its index, left-aligned to three characters.
pub open spec fn spec_reg_text(x: u8) -> Seq<char> {
    let d = spec_dec_digits(x as nat);
    d + spec_spaces(if d.len() < 3 {
        (3 - d.len()) as nat
    } else {
        0
    })
}

/// A mnemonic padded with `pad` spaces, aligning operands to column 13.
pub open spec fn spec_line3(name: Seq<char>, pad: nat, l: u8, r: u8, d: u8) -> Seq<char> {
    name + spec_spaces(pad) + seq![' '] + spec_reg_text(l) + seq![' '] + spec_reg_text(r)
        + seq![' '] + spec_reg_text(d)
}

pub open spec fn spec_line2(name: Seq<char>, pad: nat, a: u8, b: u8) -> Seq<char> {
    name + spec_spaces(pad) + seq![' '] + spec_reg_text(a) + seq![' '] + spec_reg_text(b)
}

pub open spec fn spec_line1(name: Seq<char>, pad: nat, a: u8) -> Seq<char> {
    name + spec_spaces(pad) + seq![' '] + spec_reg_text(a)
}

pub open spec fn spec_load_line(name: Seq<char>, pad: nat, d: u8, value: Seq<char>) -> Seq<char> {
    name + spec_spaces(pad) + seq![' '] + spec_reg_text(d) + seq![' '] + value
}

/// The textual rendering of one instruction, as the disassembler
/// prints it: the mnemonic aligned to twelve characters, then the
/// operands, register indices aligned to three.
pub open spec fn spec_opcode_text(op: OpcodeModel) -> Seq<char> {
    match op {
        OpcodeModel::Or(l, r, d) => spec_line3("or"@, 10, l, r, d),
        OpcodeModel::And(l, r, d) => spec_line3("and"@, 9, l, r, d),
        OpcodeModel::EqualInt(l, r, d) => spec_line3("eq_int"@, 6, l, r, d),
        OpcodeModel::EqualFloat(l, r, d) => spec_line3("eq_float"@, 4, l, r, d),
        OpcodeModel::EqualBool(l, r, d) => spec_line3("eq_bool"@, 5, l, r, d),
        OpcodeModel::EqualStr(l, r, d) => spec_line3("eq_str"@, 6, l, r, d),
        OpcodeModel::EqualChar(l, r, d) => spec_line3("eq_char"@, 5, l, r, d),
        OpcodeModel::NotEqualInt(l, r, d) => spec_line3("neq_int"@, 5, l, r, d),
        OpcodeModel::NotEqualFloat(l, r, d) => spec_line3("neq_float"@, 3, l, r, d),
        OpcodeModel::NotEqualBool(l, r, d) => spec_line3("neq_bool"@, 4, l, r, d),
        OpcodeModel::NotEqualStr(l, r, d) => spec_line3("neq_str"@, 5, l, r, d),
        OpcodeModel::NotEqualChar(l, r, d) => spec_line3("neq_char"@, 4, l, r, d),
        OpcodeModel::LessThanInt(l, r, d) => spec_line3("lt_int"@, 6, l, r, d),
        OpcodeModel::LessThanFloat(l, r, d) => spec_line3("lt_float"@, 4, l, r, d),
        OpcodeModel::LessThanStr(l, r, d) => spec_line3("lt_str"@, 6, l, r, d),
        OpcodeModel::LessThanChar(l, r, d) => spec_line3("lt_char"@, 5, l, r, d),
        OpcodeModel::LessEqInt(l, r, d) => spec_line3("leq_int"@, 5, l, r, d),
        OpcodeModel::LessEqFloat(l, r, d) => spec_line3("leq_float"@, 3, l, r, d),
        OpcodeModel::LessEqStr(l, r, d) => spec_line3("leq_str"@, 5, l, r, d),
        OpcodeModel::LessEqChar(l, r, d) => spec_line3("leq_char"@, 4, l, r, d),
        OpcodeModel::GreaterThanInt(l, r, d) => spec_line3("gt_int"@, 6, l, r, d),
        OpcodeModel::GreaterThanFloat(l, r, d) => spec_line3("gt_float"@, 4, l, r, d),
        OpcodeModel::GreaterThanStr(l, r, d) => spec_line3("gt_str"@, 6, l, r, d),
        OpcodeModel::GreaterThanChar(l, r, d) => spec_line3("gt_char"@, 5, l, r, d),
        OpcodeModel::GreaterEqInt(l, r, d) => spec_line3("geq_int"@, 5, l, r, d),
        OpcodeModel::GreaterEqFloat(l, r, d) => spec_line3("geq_float"@, 3, l, r, d),
        OpcodeModel::GreaterEqStr(l, r, d) => spec_line3("geq_str"@, 5, l, r, d),
        OpcodeModel::GreaterEqChar(l, r, d) => spec_line3("geq_char"@, 4, l, r, d),
        OpcodeModel::AddInt(l, r, d) => spec_line3("add_int"@, 5, l, r, d),
        OpcodeModel::AddFloat(l, r, d) => spec_line3("add_float"@, 3, l, r, d),
        OpcodeModel::AddStr(l, r, d) => spec_line3("add_str"@, 5, l, r, d),
        OpcodeModel::SubInt(l, r, d) => spec_line3("sub_int"@, 5, l, r, d),
        OpcodeModel::SubFloat(l, r, d) => spec_line3("sub_float"@, 3, l, r, d),
        OpcodeModel::MulInt(l, r, d) => spec_line3("mul_int"@, 5, l, r, d),
        OpcodeModel::MulFloat(l, r, d) => spec_line3("mul_float"@, 3, l, r, d),
        OpcodeModel::MulStr(l, r, d) => spec_line3("mul_str"@, 5, l, r, d),
        OpcodeModel::DivInt(l, r, d) => spec_line3("div_int"@, 5, l, r, d),
        OpcodeModel::DivFloat(l, r, d) => spec_line3("div_float"@, 3, l, r, d),
        OpcodeModel::ModInt(l, r, d) => spec_line3("mod_int"@, 5, l, r, d),
        OpcodeModel::ModFloat(l, r, d) => spec_line3("mod_float"@, 3, l, r, d),
        OpcodeModel::NegInt(a, d) => spec_line2("neg_int"@, 5, a, d),
        OpcodeModel::NegFloat(a, d) => spec_line2("neg_float"@, 3, a, d),
        OpcodeModel::NegBool(a, d) => spec_line2("neg_bool"@, 4, a, d),
        OpcodeModel::LoadInt(d, v) => spec_load_line("load_int"@, 4, d, spec_signed_text(v as int)),
        OpcodeModel::LoadFloat(d, v) => spec_load_line(
            "load_float"@,
            2,
            d,
            float_decimal_of_bits(v),
        ),
        OpcodeModel::LoadBool(d, v) => spec_load_line(
            "load_bool"@,
            3,
            d,
            if v {
                "true"@
            } else {
                "false"@
            },
        ),
        OpcodeModel::LoadStr(d, v) => spec_load_line("load_str"@, 4, d, v),
        OpcodeModel::LoadChar(d, v) => spec_load_line("load_char"@, 3, d, seq![v]),
        OpcodeModel::Copy(a, b) => spec_line2("copy"@, 8, a, b),
        OpcodeModel::Save(a) => spec_line1("save"@, 8, a),
        OpcodeModel::Jump(off) => "jump"@ + spec_spaces(8) + seq![' '] + spec_signed_text(
            off as int,
        ),
        OpcodeModel::JumpCond(a, off) => "jumpcond"@ + spec_spaces(4) + seq![' ']
            + spec_reg_text(a) + seq![' '] + spec_signed_text(off as int),
        OpcodeModel::Error => "error"@ + spec_spaces(7),
    }
}

/// Append a register operand, left-aligned to three characters.
fn push_reg(s: &mut String, x: u8)
    ensures
        final(s)@ == old(s)@ + spec_reg_text(x),
{
    let dw = decimal_width(x as u128);
    push_decimal(s, x as u128);
    push_spaces(s, if dw < 3 {
        3 - dw
    } else {
        0
    });
    proof {
        assert(final(s)@ =~= old(s)@ + spec_reg_text(x));
    }
}

/// Append the decimal rendering of a 16-bit offset.
fn push_i16(s: &mut String, v: i16)
    ensures
        final(s)@ == old(s)@ + spec_signed_text(v as int),
{
    if v < 0 {
        s.push('-');
        push_decimal(s, (-(v as i32)) as u128);
    } else {
        push_decimal(s, v as u128);
    }
    proof {
        assert(final(s)@ =~= old(s)@ + spec_signed_text(v as int));
    }
}

/// Append the decimal rendering of a 64-bit immediate.
fn push_i64(s: &mut String, v: i64)
    ensures
        final(s)@ == old(s)@ + spec_signed_text(v as int),
{
    if v < 0 {
        s.push('-');
        push_decimal(s, (-(v as i128)) as u128);
    } else {
        push_decimal(s, v as u128);
    }
    proof {
        assert(final(s)@ =~= old(s)@ + spec_signed_text(v as int));
    }
}

fn line3(name: &str, pad: usize, l: u8, r: u8, d: u8) -> (s: String)
    ensures
        s@ == spec_line3(name@, pad as nat, l, r, d),
{
    let mut s = String::new();
    s.append(name);
    push_spaces(&mut s, pad);
    s.push(' ');
    push_reg(&mut s, l);
    s.push(' ');
    push_reg(&mut s, r);
    s.push(' ');
    push_reg(&mut s, d);
    proof {
        assert(s@ =~= spec_line3(name@, pad as nat, l, r, d));
    }
    s
}

fn line2(name: &str, pad: usize, a: u8, b: u8) -> (s: String)
    ensures
        s@ == spec_line2(name@, pad as nat, a, b),
{
    let mut s = String::new();
    s.append(name);
    push_spaces(&mut s, pad);
    s.push(' ');
    push_reg(&mut s, a);
    s.push(' ');
    push_reg(&mut s, b);
    proof {
        assert(s@ =~= spec_line2(name@, pad as nat, a, b));
    }
    s
}

fn load_head(name: &str, pad: usize, d: u8) -> (s: String)
    ensures
        s@ == name@ + spec_spaces(pad as nat) + seq![' '] + spec_reg_text(d) + seq![' '],
{
    let mut s = String::new();
    s.append(name);
    push_spaces(&mut s, pad);
    s.push(' ');
    push_reg(&mut s, d);
    s.push(' ');
    proof {
        assert(s@ =~= name@ + spec_spaces(pad as nat) + seq![' '] + spec_reg_text(d) + seq![' ']);
    }
    s
}

impl Opcode {
    /// One line of disassembly for this instruction.
    pub fn to_text(&self) -> (s: String)
        ensures
            s@ == spec_opcode_text(self@),
    {
        let s = match self {
            Opcode::Or(l, r, d) => line3("or", 10, *l, *r, *d),
            Opcode::And(l, r, d) => line3("and", 9, *l, *r, *d),
            Opcode::EqualInt(l, r, d) => line3("eq_int", 6, *l, *r, *d),
            Opcode::EqualFloat(l, r, d) => line3("eq_float", 4, *l, *r, *d),
            Opcode::EqualBool(l, r, d) => line3("eq_bool", 5, *l, *r, *d),
            Opcode::EqualStr(l, r, d) => line3("eq_str", 6, *l, *r, *d),
            Opcode::EqualChar(l, r, d) => line3("eq_char", 5, *l, *r, *d),
            Opcode::NotEqualInt(l, r, d) => line3("neq_int", 5, *l, *r, *d),
            Opcode::NotEqualFloat(l, r, d) => line3("neq_float", 3, *l, *r, *d),
            Opcode::NotEqualBool(l, r, d) => line3("neq_bool", 4, *l, *r, *d),
            Opcode::NotEqualStr(l, r, d) => line3("neq_str", 5, *l, *r, *d),
            Opcode::NotEqualChar(l, r, d) => line3("neq_char", 4, *l, *r, *d),
            Opcode::LessThanInt(l, r, d) => line3("lt_int", 6, *l, *r, *d),
            Opcode::LessThanFloat(l, r, d) => line3("lt_float", 4, *l, *r, *d),
            Opcode::LessThanStr(l, r, d) => line3("lt_str", 6, *l, *r, *d),
            Opcode::LessThanChar(l, r, d) => line3("lt_char", 5, *l, *r, *d),
            Opcode::LessEqInt(l, r, d) => line3("leq_int", 5, *l, *r, *d),
            Opcode::LessEqFloat(l, r, d) => line3("leq_float", 3, *l, *r, *d),
            Opcode::LessEqStr(l, r, d) => line3("leq_str", 5, *l, *r, *d),
            Opcode::LessEqChar(l, r, d) => line3("leq_char", 4, *l, *r, *d),
            Opcode::GreaterThanInt(l, r, d) => line3("gt_int", 6, *l, *r, *d),
            Opcode::GreaterThanFloat(l, r, d) => line3("gt_float", 4, *l, *r, *d),
            Opcode::GreaterThanStr(l, r, d) => line3("gt_str", 6, *l, *r, *d),
            Opcode::GreaterThanChar(l, r, d) => line3("gt_char", 5, *l, *r, *d),
            Opcode::GreaterEqInt(l, r, d) => line3("geq_int", 5, *l, *r, *d),
            Opcode::GreaterEqFloat(l, r, d) => line3("geq_float", 3, *l, *r, *d),
            Opcode::GreaterEqStr(l, r, d) => line3("geq_str", 5, *l, *r, *d),
            Opcode::GreaterEqChar(l, r, d) => line3("geq_char", 4, *l, *r, *d),
            Opcode::AddInt(l, r, d) => line3("add_int", 5, *l, *r, *d),
            Opcode::AddFloat(l, r, d) => line3("add_float", 3, *l, *r, *d),
            Opcode::AddStr(l, r, d) => line3("add_str", 5, *l, *r, *d),
            Opcode::SubInt(l, r, d) => line3("sub_int", 5, *l, *r, *d),
            Opcode::SubFloat(l, r, d) => line3("sub_float", 3, *l, *r, *d),
            Opcode::MulInt(l, r, d) => line3("mul_int", 5, *l, *r, *d),
            Opcode::MulFloat(l, r, d) => line3("mul_float", 3, *l, *r, *d),
            Opcode::MulStr(l, r, d) => line3("mul_str", 5, *l, *r, *d),
            Opcode::DivInt(l, r, d) => line3("div_int", 5, *l, *r, *d),
            Opcode::DivFloat(l, r, d) => line3("div_float", 3, *l, *r, *d),
            Opcode::ModInt(l, r, d) => line3("mod_int", 5, *l, *r, *d),
            Opcode::ModFloat(l, r, d) => line3("mod_float", 3, *l, *r, *d),
            Opcode::NegInt(a, d) => line2("neg_int", 5, *a, *d),
            Opcode::NegFloat(a, d) => line2("neg_float", 3, *a, *d),
            Opcode::NegBool(a, d) => line2("neg_bool", 4, *a, *d),
            Opcode::LoadInt(d, v) => {
                let mut s = load_head("load_int", 4, *d);
                push_i64(&mut s, *v);
                s
            },
            Opcode::LoadFloat(d, v) => {
                let mut s = load_head("load_float", 2, *d);
                let text = crate::float_bits::float_to_decimal(*v);
                s.append(text.as_str());
                s
            },
            Opcode::LoadBool(d, v) => {
                let mut s = load_head("load_bool", 3, *d);
                s.append(if *v {
                    "true"
                } else {
                    "false"
                });
                s
            },
            Opcode::LoadStr(d, v) => {
                let mut s = load_head("load_str", 4, *d);
                s.append(v.as_str());
                s
            },
            Opcode::LoadChar(d, v) => {
                let mut s = load_head("load_char", 3, *d);
                s.push(*v);
                s
            },
            Opcode::Copy(a, b) => line2("copy", 8, *a, *b),
            Opcode::Save(a) => {
                let mut s = String::new();
                s.append("save");
                push_spaces(&mut s, 8);
                s.push(' ');
                push_reg(&mut s, *a);
                s
            },
            Opcode::Jump(off) => {
                let mut s = String::new();
                s.append("jump");
                push_spaces(&mut s, 8);
                s.push(' ');
                push_i16(&mut s, *off);
                s
            },
            Opcode::JumpCond(a, off) => {
                let mut s = String::new();
                s.append("jumpcond");
                push_spaces(&mut s, 4);
                s.push(' ');
                push_reg(&mut s, *a);
                s.push(' ');
                push_i16(&mut s, *off);
                s
            },
            Opcode::Error => {
                let mut s = String::new();
                s.append("error");
                push_spaces(&mut s, 7);
                s
            },
        };
        proof {
            assert(s@ =~= spec_opcode_text(self@));
        }
        s
    }
}

} // verus!
