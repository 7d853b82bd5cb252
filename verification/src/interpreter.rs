use vstd::prelude::*;

use crate::compiler::language_components::{Value, ValueModel};
use crate::float_bits::{
    float_add, float_add_bits, float_cmp, float_cmp_bits, float_div, float_div_bits, float_mul,
    float_mul_bits, float_rem, float_rem_bits, float_sub, float_sub_bits, spec_neg_one_bits,
};
use crate::opcode::{Opcode, OpcodeModel};
use crate::textops::{lex_lt, spec_repeat, str_eq, str_le, str_lt, str_repeat};
use vstd::string::StrSliceExecFns;

verus! {

use vstd::utf8::encode_utf8;

/// One execution of a compiled program: a program counter over the
/// instruction vector, a bank of 256 typed slots, and the value of the
/// last `Save` executed.
pub struct Thread {
    instructions: Vec<Opcode>,
    program_counter: usize,
    registers: Vec<Value>,
    return_value: Option<Value>,
}

/// The mathematical model of a thread.
#[verifier::ext_equal]
pub struct ThreadModel {
    pub instructions: Seq<OpcodeModel>,
    pub program_counter: usize,
    pub registers: Seq<ValueModel>,
    pub return_value: Option<ValueModel>,
}

impl View for Thread {
    type V = ThreadModel;

    closed spec fn view(&self) -> ThreadModel {
        ThreadModel {
            instructions: self.instructions@.map_values(|op: Opcode| op@),
            program_counter: self.program_counter,
            registers: self.registers@.map_values(|v: Value| v@),
            return_value: match self.return_value {
                Some(v) => Some(v@),
                None => None,
            },
        }
    }
}

pub open spec fn wf_thread(m: ThreadModel) -> bool {
    m.registers.len() == 256
}

/// The slot's value read as the given type; `None` on a tag mismatch,
/// which no compiled program produces.
pub open spec fn int_at(m: ThreadModel, i: u8) -> Option<i64> {
    match m.registers[i as int] {
        ValueModel::Int(v) => Some(v),
        _ => None,
    }
}

pub open spec fn float_at(m: ThreadModel, i: u8) -> Option<u64> {
    match m.registers[i as int] {
        ValueModel::Float(v) => Some(v),
        _ => None,
    }
}

pub open spec fn bool_at(m: ThreadModel, i: u8) -> Option<bool> {
    match m.registers[i as int] {
        ValueModel::Bool(v) => Some(v),
        _ => None,
    }
}

pub open spec fn str_at(m: ThreadModel, i: u8) -> Option<Seq<char>> {
    match m.registers[i as int] {
        ValueModel::Str(v) => Some(v),
        _ => None,
    }
}

pub open spec fn char_at(m: ThreadModel, i: u8) -> Option<char> {
    match m.registers[i as int] {
        ValueModel::Char(v) => Some(v),
        _ => None,
    }
}

/// Write `v` to slot `d`.
pub open spec fn spec_put(m: ThreadModel, d: u8, v: ValueModel) -> ThreadModel {
    ThreadModel { registers: m.registers.update(d as int, v), ..m }
}

/// The post-instruction increment of the program counter, wrapping.
pub open spec fn spec_advance(m: ThreadModel) -> ThreadModel {
    ThreadModel {
        program_counter: vstd::wrapping::usize_specs::wrapping_add(m.program_counter, 1),
        ..m
    }
}

pub open spec fn step_put(m: ThreadModel, d: u8, v: ValueModel) -> Option<ThreadModel> {
    Some(spec_advance(spec_put(m, d, v)))
}

/// Two values of a binary operation, both of the declared type.
pub open spec fn ints_at(m: ThreadModel, l: u8, r: u8) -> Option<(i64, i64)> {
    match (int_at(m, l), int_at(m, r)) {
        (Some(a), Some(b)) => Some((a, b)),
        _ => None,
    }
}

pub open spec fn floats_at(m: ThreadModel, l: u8, r: u8) -> Option<(u64, u64)> {
    match (float_at(m, l), float_at(m, r)) {
        (Some(a), Some(b)) => Some((a, b)),
        _ => None,
    }
}

pub open spec fn bools_at(m: ThreadModel, l: u8, r: u8) -> Option<(bool, bool)> {
    match (bool_at(m, l), bool_at(m, r)) {
        (Some(a), Some(b)) => Some((a, b)),
        _ => None,
    }
}

pub open spec fn strs_at(m: ThreadModel, l: u8, r: u8) -> Option<(Seq<char>, Seq<char>)> {
    match (str_at(m, l), str_at(m, r)) {
        (Some(a), Some(b)) => Some((a, b)),
        _ => None,
    }
}

pub open spec fn chars_at(m: ThreadModel, l: u8, r: u8) -> Option<(char, char)> {
    match (char_at(m, l), char_at(m, r)) {
        (Some(a), Some(b)) => Some((a, b)),
        _ => None,
    }
}

/// Truncating signed division, exactly as `/` on 64-bit integers;
/// `None` where that division traps.
pub open spec fn spec_div_i64(a: i64, b: i64) -> Option<i64> {
    a.checked_div(b)
}

pub open spec fn spec_rem_i64(a: i64, b: i64) -> Option<i64> {
    a.checked_rem(b)
}

/// One dispatch of the instruction under the program counter,
/// including the post-instruction increment. `None` is a trap: a type
/// tag unlike the opcode's declared type, integer division by zero or
/// overflowed division, a string repetition too large for memory, or
/// the placeholder opcode — none of which a compiled program produces.
pub open spec fn spec_step(m: ThreadModel) -> Option<ThreadModel>
    recommends
        wf_thread(m),
        m.program_counter < m.instructions.len(),
{
    match m.instructions[m.program_counter as int] {
        OpcodeModel::Or(l, r, d) => match bools_at(m, l, r) {
            Some((a, b)) => step_put(m, d, ValueModel::Bool(a || b)),
            None => None,
        },
        OpcodeModel::And(l, r, d) => match bools_at(m, l, r) {
            Some((a, b)) => step_put(m, d, ValueModel::Bool(a && b)),
            None => None,
        },
        OpcodeModel::EqualInt(l, r, d) => match ints_at(m, l, r) {
            Some((a, b)) => step_put(m, d, ValueModel::Bool(a == b)),
            None => None,
        },
        OpcodeModel::EqualFloat(l, r, d) => match floats_at(m, l, r) {
            Some((a, b)) => step_put(m, d, ValueModel::Bool(float_cmp_bits(a, b) == Some(0i8))),
            None => None,
        },
        OpcodeModel::EqualBool(l, r, d) => match bools_at(m, l, r) {
            Some((a, b)) => step_put(m, d, ValueModel::Bool(a == b)),
            None => None,
        },
        OpcodeModel::EqualStr(l, r, d) => match strs_at(m, l, r) {
            Some((a, b)) => step_put(m, d, ValueModel::Bool(a == b)),
            None => None,
        },
        OpcodeModel::EqualChar(l, r, d) => match chars_at(m, l, r) {
            Some((a, b)) => step_put(m, d, ValueModel::Bool(a == b)),
            None => None,
        },
        OpcodeModel::NotEqualInt(l, r, d) => match ints_at(m, l, r) {
            Some((a, b)) => step_put(m, d, ValueModel::Bool(a != b)),
            None => None,
        },
        OpcodeModel::NotEqualFloat(l, r, d) => match floats_at(m, l, r) {
            Some((a, b)) => step_put(m, d, ValueModel::Bool(float_cmp_bits(a, b) != Some(0i8))),
            None => None,
        },
        OpcodeModel::NotEqualBool(l, r, d) => match bools_at(m, l, r) {
            Some((a, b)) => step_put(m, d, ValueModel::Bool(a != b)),
            None => None,
        },
        OpcodeModel::NotEqualStr(l, r, d) => match strs_at(m, l, r) {
            Some((a, b)) => step_put(m, d, ValueModel::Bool(a != b)),
            None => None,
        },
        OpcodeModel::NotEqualChar(l, r, d) => match chars_at(m, l, r) {
            Some((a, b)) => step_put(m, d, ValueModel::Bool(a != b)),
            None => None,
        },
        OpcodeModel::LessThanInt(l, r, d) => match ints_at(m, l, r) {
            Some((a, b)) => step_put(m, d, ValueModel::Bool(a < b)),
            None => None,
        },
        OpcodeModel::LessThanFloat(l, r, d) => match floats_at(m, l, r) {
            Some((a, b)) => step_put(m, d, ValueModel::Bool(float_cmp_bits(a, b) == Some(-1i8))),
            None => None,
        },
        OpcodeModel::LessThanStr(l, r, d) => match strs_at(m, l, r) {
            Some((a, b)) => step_put(m, d, ValueModel::Bool(lex_lt(a, b))),
            None => None,
        },
        OpcodeModel::LessThanChar(l, r, d) => match chars_at(m, l, r) {
            Some((a, b)) => step_put(m, d, ValueModel::Bool((a as u32) < (b as u32))),
            None => None,
        },
        OpcodeModel::LessEqInt(l, r, d) => match ints_at(m, l, r) {
            Some((a, b)) => step_put(m, d, ValueModel::Bool(a <= b)),
            None => None,
        },
        OpcodeModel::LessEqFloat(l, r, d) => match floats_at(m, l, r) {
            Some((a, b)) => step_put(
                m,
                d,
                ValueModel::Bool(
                    float_cmp_bits(a, b) == Some(-1i8) || float_cmp_bits(a, b) == Some(0i8),
                ),
            ),
            None => None,
        },
        OpcodeModel::LessEqStr(l, r, d) => match strs_at(m, l, r) {
            Some((a, b)) => step_put(m, d, ValueModel::Bool(lex_lt(a, b) || a == b)),
            None => None,
        },
        OpcodeModel::LessEqChar(l, r, d) => match chars_at(m, l, r) {
            Some((a, b)) => step_put(m, d, ValueModel::Bool((a as u32) <= (b as u32))),
            None => None,
        },
        OpcodeModel::GreaterThanInt(l, r, d) => match ints_at(m, l, r) {
            Some((a, b)) => step_put(m, d, ValueModel::Bool(a > b)),
            None => None,
        },
        OpcodeModel::GreaterThanFloat(l, r, d) => match floats_at(m, l, r) {
            Some((a, b)) => step_put(m, d, ValueModel::Bool(float_cmp_bits(a, b) == Some(1i8))),
            None => None,
        },
        OpcodeModel::GreaterThanStr(l, r, d) => match strs_at(m, l, r) {
            Some((a, b)) => step_put(m, d, ValueModel::Bool(lex_lt(b, a))),
            None => None,
        },
        OpcodeModel::GreaterThanChar(l, r, d) => match chars_at(m, l, r) {
            Some((a, b)) => step_put(m, d, ValueModel::Bool((a as u32) > (b as u32))),
            None => None,
        },
        OpcodeModel::GreaterEqInt(l, r, d) => match ints_at(m, l, r) {
            Some((a, b)) => step_put(m, d, ValueModel::Bool(a >= b)),
            None => None,
        },
        OpcodeModel::GreaterEqFloat(l, r, d) => match floats_at(m, l, r) {
            Some((a, b)) => step_put(
                m,
                d,
                ValueModel::Bool(
                    float_cmp_bits(a, b) == Some(1i8) || float_cmp_bits(a, b) == Some(0i8),
                ),
            ),
            None => None,
        },
        OpcodeModel::GreaterEqStr(l, r, d) => match strs_at(m, l, r) {
            Some((a, b)) => step_put(m, d, ValueModel::Bool(lex_lt(b, a) || a == b)),
            None => None,
        },
        OpcodeModel::GreaterEqChar(l, r, d) => match chars_at(m, l, r) {
            Some((a, b)) => step_put(m, d, ValueModel::Bool((a as u32) >= (b as u32))),
            None => None,
        },
        OpcodeModel::AddInt(l, r, d) => match ints_at(m, l, r) {
            Some((a, b)) => step_put(
                m,
                d,
                ValueModel::Int(vstd::wrapping::i64_specs::wrapping_add(a, b)),
            ),
            None => None,
        },
        OpcodeModel::AddFloat(l, r, d) => match floats_at(m, l, r) {
            Some((a, b)) => step_put(m, d, ValueModel::Float(float_add_bits(a, b))),
            None => None,
        },
        OpcodeModel::AddStr(l, r, d) => match strs_at(m, l, r) {
            Some((a, b)) => step_put(m, d, ValueModel::Str(a + b)),
            None => None,
        },
        OpcodeModel::SubInt(l, r, d) => match ints_at(m, l, r) {
            Some((a, b)) => step_put(
                m,
                d,
                ValueModel::Int(vstd::wrapping::i64_specs::wrapping_sub(a, b)),
            ),
            None => None,
        },
        OpcodeModel::SubFloat(l, r, d) => match floats_at(m, l, r) {
            Some((a, b)) => step_put(m, d, ValueModel::Float(float_sub_bits(a, b))),
            None => None,
        },
        OpcodeModel::MulInt(l, r, d) => match ints_at(m, l, r) {
            Some((a, b)) => step_put(
                m,
                d,
                ValueModel::Int(vstd::wrapping::i64_specs::wrapping_mul(a, b)),
            ),
            None => None,
        },
        OpcodeModel::MulFloat(l, r, d) => match floats_at(m, l, r) {
            Some((a, b)) => step_put(m, d, ValueModel::Float(float_mul_bits(a, b))),
            None => None,
        },
        OpcodeModel::MulStr(sreg, nreg, d) => match (str_at(m, sreg), int_at(m, nreg)) {
            (Some(s), Some(n)) => {
                let clamped: int = if n < 0 {
                    0
                } else {
                    n as int
                };
                let byte_len: int = (encode_utf8(s).len() as usize) as int;
                if byte_len == 0 {
                    step_put(m, d, ValueModel::Str(Seq::<char>::empty()))
                } else if clamped > usize::MAX {
                    None
                } else if byte_len * clamped > usize::MAX {
                    None
                } else {
                    step_put(m, d, ValueModel::Str(spec_repeat(s, clamped as nat)))
                }
            },
            _ => None,
        },
        OpcodeModel::DivInt(l, r, d) => match ints_at(m, l, r) {
            Some((a, b)) => match spec_div_i64(a, b) {
                Some(q) => step_put(m, d, ValueModel::Int(q)),
                None => None,
            },
            None => None,
        },
        OpcodeModel::DivFloat(l, r, d) => match floats_at(m, l, r) {
            Some((a, b)) => step_put(m, d, ValueModel::Float(float_div_bits(a, b))),
            None => None,
        },
        OpcodeModel::ModInt(l, r, d) => match ints_at(m, l, r) {
            Some((a, b)) => match spec_rem_i64(a, b) {
                Some(q) => step_put(m, d, ValueModel::Int(q)),
                None => None,
            },
            None => None,
        },
        OpcodeModel::ModFloat(l, r, d) => match floats_at(m, l, r) {
            Some((a, b)) => step_put(m, d, ValueModel::Float(float_rem_bits(a, b))),
            None => None,
        },
        OpcodeModel::NegInt(s, d) => match int_at(m, s) {
            Some(a) => step_put(
                m,
                d,
                ValueModel::Int(vstd::wrapping::i64_specs::wrapping_mul((-1) as i64, a)),
            ),
            None => None,
        },
        OpcodeModel::NegFloat(s, d) => match float_at(m, s) {
            Some(a) => step_put(m, d, ValueModel::Float(float_mul_bits(spec_neg_one_bits(), a))),
            None => None,
        },
        OpcodeModel::NegBool(s, d) => match bool_at(m, s) {
            Some(a) => step_put(m, d, ValueModel::Bool(!a)),
            None => None,
        },
        OpcodeModel::LoadInt(d, v) => step_put(m, d, ValueModel::Int(v)),
        OpcodeModel::LoadFloat(d, v) => step_put(m, d, ValueModel::Float(v)),
        OpcodeModel::LoadBool(d, v) => step_put(m, d, ValueModel::Bool(v)),
        OpcodeModel::LoadStr(d, v) => step_put(m, d, ValueModel::Str(v)),
        OpcodeModel::LoadChar(d, v) => step_put(m, d, ValueModel::Char(v)),
        OpcodeModel::Copy(s, d) => step_put(m, d, m.registers[s as int]),
        OpcodeModel::Save(s) => Some(
            spec_advance(ThreadModel { return_value: Some(m.registers[s as int]), ..m }),
        ),
        OpcodeModel::Jump(off) => Some(
            spec_advance(
                ThreadModel {
                    program_counter: vstd::wrapping::usize_specs::wrapping_add_signed(
                        m.program_counter,
                        off as isize,
                    ),
                    ..m
                },
            ),
        ),
        OpcodeModel::JumpCond(c, off) => match bool_at(m, c) {
            Some(taken) => {
                if !taken {
                    Some(
                        spec_advance(
                            ThreadModel {
                                program_counter: vstd::wrapping::usize_specs::wrapping_add_signed(
                                    m.program_counter,
                                    off as isize,
                                ),
                                ..m
                            },
                        ),
                    )
                } else {
                    Some(spec_advance(m))
                }
            },
            None => None,
        },
        OpcodeModel::Error => None,
    }
}

/// Running for at most `fuel` instructions: stops when the program
/// counter leaves the instruction vector, when a dispatch traps, or
/// when the fuel is spent.
pub open spec fn spec_run(m: ThreadModel, fuel: nat) -> ThreadModel
    decreases fuel,
{
    if fuel == 0 {
        m
    } else if m.program_counter >= m.instructions.len() {
        m
    } else {
        match spec_step(m) {
            None => m,
            Some(m2) => spec_run(m2, (fuel - 1) as nat),
        }
    }
}

impl Thread {
    pub fn new(instructions: Vec<Opcode>) -> (t: Thread)
        ensures
            t@.instructions == instructions@.map_values(|op: Opcode| op@),
            t@.program_counter == 0,
            t@.registers =~= Seq::new(256, |i: int| ValueModel::Int(0)),
            t@.return_value is None,
            wf_thread(t@),
    {
        let mut registers: Vec<Value> = Vec::with_capacity(256);
        let mut i: usize = 0;
        while i < 256
            invariant
                i <= 256,
                registers@.len() == i,
                forall|k: int| 0 <= k < i ==> registers@[k] == Value::Int(0i64),
            decreases 256 - i,
        {
            registers.push(Value::Int(0));
            i = i + 1;
        }
        let t = Thread { instructions, program_counter: 0, registers, return_value: None };
        proof {
            assert(t@.registers =~= Seq::new(256, |k: int| ValueModel::Int(0)));
        }
        t
    }

    /// The value of the last `Save` the thread executed, if any.
    pub fn return_value(&self) -> (r: &Option<Value>)
        ensures
            r is Some <==> self@.return_value is Some,
            r matches Some(v) ==> self@.return_value == Some(v@),
    {
        &self.return_value
    }

    /// The slot's value read as an `Int`.
    fn get_int(&self, i: u8) -> (r: Option<i64>)
        requires
            wf_thread(self@),
        ensures
            r == int_at(self@, i),
    {
        match &self.registers[i as usize] {
            Value::Int(v) => Some(*v),
            _ => None,
        }
    }

    fn get_float(&self, i: u8) -> (r: Option<u64>)
        requires
            wf_thread(self@),
        ensures
            r == float_at(self@, i),
    {
        match &self.registers[i as usize] {
            Value::Float(v) => Some(*v),
            _ => None,
        }
    }

    fn get_bool(&self, i: u8) -> (r: Option<bool>)
        requires
            wf_thread(self@),
        ensures
            r == bool_at(self@, i),
    {
        match &self.registers[i as usize] {
            Value::Bool(v) => Some(*v),
            _ => None,
        }
    }

    fn get_str(&self, i: u8) -> (r: Option<String>)
        requires
            wf_thread(self@),
        ensures
            match r {
                Some(s) => str_at(self@, i) == Some(s@),
                None => str_at(self@, i) is None,
            },
    {
        match &self.registers[i as usize] {
            Value::Str(v) => Some(v.clone()),
            _ => None,
        }
    }

    fn get_char(&self, i: u8) -> (r: Option<char>)
        requires
            wf_thread(self@),
        ensures
            r == char_at(self@, i),
    {
        match &self.registers[i as usize] {
            Value::Char(v) => Some(*v),
            _ => None,
        }
    }

    /// Write `v` to slot `d`.
    fn put(&mut self, d: u8, v: Value)
        requires
            wf_thread(old(self)@),
        ensures
            final(self)@ == spec_put(old(self)@, d, v@),
    {
        self.registers[d as usize] = v;
        proof {
            assert(final(self)@ =~= spec_put(old(self)@, d, v@));
        }
    }

    /// Execute the instruction under the program counter, leaving the
    /// program counter on the next instruction; `false` on a trap,
    /// which leaves the thread unchanged.
    fn step(&mut self) -> (r: bool)
        requires
            wf_thread(old(self)@),
            old(self)@.program_counter < old(self)@.instructions.len(),
        ensures
            match spec_step(old(self)@) {
                Some(m2) => r && final(self)@ == m2,
                None => !r && final(self)@ == old(self)@,
            },
    {
        let pc = self.program_counter;
        match &self.instructions[pc] {
            Opcode::Or(l0, r0, d0) => {
                let (l, r, d) = (*l0, *r0, *d0);
                let a = match self.get_bool(l) {
                    Some(x) => x,
                    None => {
                        return false;
                    },
                };
                let b = match self.get_bool(r) {
                    Some(x) => x,
                    None => {
                        return false;
                    },
                };
                self.put(d, Value::Bool(a || b));
            },
            Opcode::And(l0, r0, d0) => {
                let (l, r, d) = (*l0, *r0, *d0);
                let a = match self.get_bool(l) {
                    Some(x) => x,
                    None => {
                        return false;
                    },
                };
                let b = match self.get_bool(r) {
                    Some(x) => x,
                    None => {
                        return false;
                    },
                };
                self.put(d, Value::Bool(a && b));
            },
            Opcode::EqualInt(l0, r0, d0) => {
                let (l, r, d) = (*l0, *r0, *d0);
                let a = match self.get_int(l) {
                    Some(x) => x,
                    None => {
                        return false;
                    },
                };
                let b = match self.get_int(r) {
                    Some(x) => x,
                    None => {
                        return false;
                    },
                };
                self.put(d, Value::Bool(a == b));
            },
            Opcode::EqualFloat(l0, r0, d0) => {
                let (l, r, d) = (*l0, *r0, *d0);
                let a = match self.get_float(l) {
                    Some(x) => x,
                    None => {
                        return false;
                    },
                };
                let b = match self.get_float(r) {
                    Some(x) => x,
                    None => {
                        return false;
                    },
                };
                self.put(d, Value::Bool(float_cmp(a, b) == Some(0i8)));
            },
            Opcode::EqualBool(l0, r0, d0) => {
                let (l, r, d) = (*l0, *r0, *d0);
                let a = match self.get_bool(l) {
                    Some(x) => x,
                    None => {
                        return false;
                    },
                };
                let b = match self.get_bool(r) {
                    Some(x) => x,
                    None => {
                        return false;
                    },
                };
                self.put(d, Value::Bool(a == b));
            },
            Opcode::EqualStr(l0, r0, d0) => {
                let (l, r, d) = (*l0, *r0, *d0);
                let a = match self.get_str(l) {
                    Some(x) => x,
                    None => {
                        return false;
                    },
                };
                let b = match self.get_str(r) {
                    Some(x) => x,
                    None => {
                        return false;
                    },
                };
                self.put(d, Value::Bool(str_eq(a.as_str(), b.as_str())));
            },
            Opcode::EqualChar(l0, r0, d0) => {
                let (l, r, d) = (*l0, *r0, *d0);
                let a = match self.get_char(l) {
                    Some(x) => x,
                    None => {
                        return false;
                    },
                };
                let b = match self.get_char(r) {
                    Some(x) => x,
                    None => {
                        return false;
                    },
                };
                self.put(d, Value::Bool(a == b));
            },
            Opcode::NotEqualInt(l0, r0, d0) => {
                let (l, r, d) = (*l0, *r0, *d0);
                let a = match self.get_int(l) {
                    Some(x) => x,
                    None => {
                        return false;
                    },
                };
                let b = match self.get_int(r) {
                    Some(x) => x,
                    None => {
                        return false;
                    },
                };
                self.put(d, Value::Bool(a != b));
            },
            Opcode::NotEqualFloat(l0, r0, d0) => {
                let (l, r, d) = (*l0, *r0, *d0);
                let a = match self.get_float(l) {
                    Some(x) => x,
                    None => {
                        return false;
                    },
                };
                let b = match self.get_float(r) {
                    Some(x) => x,
                    None => {
                        return false;
                    },
                };
                self.put(d, Value::Bool(!(float_cmp(a, b) == Some(0i8))));
            },
            Opcode::NotEqualBool(l0, r0, d0) => {
                let (l, r, d) = (*l0, *r0, *d0);
                let a = match self.get_bool(l) {
                    Some(x) => x,
                    None => {
                        return false;
                    },
                };
                let b = match self.get_bool(r) {
                    Some(x) => x,
                    None => {
                        return false;
                    },
                };
                self.put(d, Value::Bool(a != b));
            },
            Opcode::NotEqualStr(l0, r0, d0) => {
                let (l, r, d) = (*l0, *r0, *d0);
                let a = match self.get_str(l) {
                    Some(x) => x,
                    None => {
                        return false;
                    },
                };
                let b = match self.get_str(r) {
                    Some(x) => x,
                    None => {
                        return false;
                    },
                };
                self.put(d, Value::Bool(!str_eq(a.as_str(), b.as_str())));
            },
            Opcode::NotEqualChar(l0, r0, d0) => {
                let (l, r, d) = (*l0, *r0, *d0);
                let a = match self.get_char(l) {
                    Some(x) => x,
                    None => {
                        return false;
                    },
                };
                let b = match self.get_char(r) {
                    Some(x) => x,
                    None => {
                        return false;
                    },
                };
                self.put(d, Value::Bool(a != b));
            },
            Opcode::LessThanInt(l0, r0, d0) => {
                let (l, r, d) = (*l0, *r0, *d0);
                let a = match self.get_int(l) {
                    Some(x) => x,
                    None => {
                        return false;
                    },
                };
                let b = match self.get_int(r) {
                    Some(x) => x,
                    None => {
                        return false;
                    },
                };
                self.put(d, Value::Bool(a < b));
            },
            Opcode::LessThanFloat(l0, r0, d0) => {
                let (l, r, d) = (*l0, *r0, *d0);
                let a = match self.get_float(l) {
                    Some(x) => x,
                    None => {
                        return false;
                    },
                };
                let b = match self.get_float(r) {
                    Some(x) => x,
                    None => {
                        return false;
                    },
                };
                self.put(d, Value::Bool(float_cmp(a, b) == Some(-1i8)));
            },
            Opcode::LessThanStr(l0, r0, d0) => {
                let (l, r, d) = (*l0, *r0, *d0);
                let a = match self.get_str(l) {
                    Some(x) => x,
                    None => {
                        return false;
                    },
                };
                let b = match self.get_str(r) {
                    Some(x) => x,
                    None => {
                        return false;
                    },
                };
                self.put(d, Value::Bool(str_lt(a.as_str(), b.as_str())));
            },
            Opcode::LessThanChar(l0, r0, d0) => {
                let (l, r, d) = (*l0, *r0, *d0);
                let a = match self.get_char(l) {
                    Some(x) => x,
                    None => {
                        return false;
                    },
                };
                let b = match self.get_char(r) {
                    Some(x) => x,
                    None => {
                        return false;
                    },
                };
                self.put(d, Value::Bool((a as u32) < (b as u32)));
            },
            Opcode::LessEqInt(l0, r0, d0) => {
                let (l, r, d) = (*l0, *r0, *d0);
                let a = match self.get_int(l) {
                    Some(x) => x,
                    None => {
                        return false;
                    },
                };
                let b = match self.get_int(r) {
                    Some(x) => x,
                    None => {
                        return false;
                    },
                };
                self.put(d, Value::Bool(a <= b));
            },
            Opcode::LessEqFloat(l0, r0, d0) => {
                let (l, r, d) = (*l0, *r0, *d0);
                let a = match self.get_float(l) {
                    Some(x) => x,
                    None => {
                        return false;
                    },
                };
                let b = match self.get_float(r) {
                    Some(x) => x,
                    None => {
                        return false;
                    },
                };
                let c = float_cmp(a, b);
                self.put(d, Value::Bool(c == Some(-1i8) || c == Some(0i8)));
            },
            Opcode::LessEqStr(l0, r0, d0) => {
                let (l, r, d) = (*l0, *r0, *d0);
                let a = match self.get_str(l) {
                    Some(x) => x,
                    None => {
                        return false;
                    },
                };
                let b = match self.get_str(r) {
                    Some(x) => x,
                    None => {
                        return false;
                    },
                };
                self.put(d, Value::Bool(str_le(a.as_str(), b.as_str())));
            },
            Opcode::LessEqChar(l0, r0, d0) => {
                let (l, r, d) = (*l0, *r0, *d0);
                let a = match self.get_char(l) {
                    Some(x) => x,
                    None => {
                        return false;
                    },
                };
                let b = match self.get_char(r) {
                    Some(x) => x,
                    None => {
                        return false;
                    },
                };
                self.put(d, Value::Bool((a as u32) <= (b as u32)));
            },
            Opcode::GreaterThanInt(l0, r0, d0) => {
                let (l, r, d) = (*l0, *r0, *d0);
                let a = match self.get_int(l) {
                    Some(x) => x,
                    None => {
                        return false;
                    },
                };
                let b = match self.get_int(r) {
                    Some(x) => x,
                    None => {
                        return false;
                    },
                };
                self.put(d, Value::Bool(a > b));
            },
            Opcode::GreaterThanFloat(l0, r0, d0) => {
                let (l, r, d) = (*l0, *r0, *d0);
                let a = match self.get_float(l) {
                    Some(x) => x,
                    None => {
                        return false;
                    },
                };
                let b = match self.get_float(r) {
                    Some(x) => x,
                    None => {
                        return false;
                    },
                };
                self.put(d, Value::Bool(float_cmp(a, b) == Some(1i8)));
            },
            Opcode::GreaterThanStr(l0, r0, d0) => {
                let (l, r, d) = (*l0, *r0, *d0);
                let a = match self.get_str(l) {
                    Some(x) => x,
                    None => {
                        return false;
                    },
                };
                let b = match self.get_str(r) {
                    Some(x) => x,
                    None => {
                        return false;
                    },
                };
                self.put(d, Value::Bool(str_lt(b.as_str(), a.as_str())));
            },
            Opcode::GreaterThanChar(l0, r0, d0) => {
                let (l, r, d) = (*l0, *r0, *d0);
                let a = match self.get_char(l) {
                    Some(x) => x,
                    None => {
                        return false;
                    },
                };
                let b = match self.get_char(r) {
                    Some(x) => x,
                    None => {
                        return false;
                    },
                };
                self.put(d, Value::Bool((a as u32) > (b as u32)));
            },
            Opcode::GreaterEqInt(l0, r0, d0) => {
                let (l, r, d) = (*l0, *r0, *d0);
                let a = match self.get_int(l) {
                    Some(x) => x,
                    None => {
                        return false;
                    },
                };
                let b = match self.get_int(r) {
                    Some(x) => x,
                    None => {
                        return false;
                    },
                };
                self.put(d, Value::Bool(a >= b));
            },
            Opcode::GreaterEqFloat(l0, r0, d0) => {
                let (l, r, d) = (*l0, *r0, *d0);
                let a = match self.get_float(l) {
                    Some(x) => x,
                    None => {
                        return false;
                    },
                };
                let b = match self.get_float(r) {
                    Some(x) => x,
                    None => {
                        return false;
                    },
                };
                let c = float_cmp(a, b);
                self.put(d, Value::Bool(c == Some(1i8) || c == Some(0i8)));
            },
            Opcode::GreaterEqStr(l0, r0, d0) => {
                let (l, r, d) = (*l0, *r0, *d0);
                let a = match self.get_str(l) {
                    Some(x) => x,
                    None => {
                        return false;
                    },
                };
                let b = match self.get_str(r) {
                    Some(x) => x,
                    None => {
                        return false;
                    },
                };
                let ge = str_lt(b.as_str(), a.as_str()) || str_eq(a.as_str(), b.as_str());
                self.put(d, Value::Bool(ge));
            },
            Opcode::GreaterEqChar(l0, r0, d0) => {
                let (l, r, d) = (*l0, *r0, *d0);
                let a = match self.get_char(l) {
                    Some(x) => x,
                    None => {
                        return false;
                    },
                };
                let b = match self.get_char(r) {
                    Some(x) => x,
                    None => {
                        return false;
                    },
                };
                self.put(d, Value::Bool((a as u32) >= (b as u32)));
            },
            Opcode::AddInt(l0, r0, d0) => {
                let (l, r, d) = (*l0, *r0, *d0);
                let a = match self.get_int(l) {
                    Some(x) => x,
                    None => {
                        return false;
                    },
                };
                let b = match self.get_int(r) {
                    Some(x) => x,
                    None => {
                        return false;
                    },
                };
                self.put(d, Value::Int(a.wrapping_add(b)));
            },
            Opcode::AddFloat(l0, r0, d0) => {
                let (l, r, d) = (*l0, *r0, *d0);
                let a = match self.get_float(l) {
                    Some(x) => x,
                    None => {
                        return false;
                    },
                };
                let b = match self.get_float(r) {
                    Some(x) => x,
                    None => {
                        return false;
                    },
                };
                self.put(d, Value::Float(float_add(a, b)));
            },
            Opcode::AddStr(l0, r0, d0) => {
                let (l, r, d) = (*l0, *r0, *d0);
                let a = match self.get_str(l) {
                    Some(x) => x,
                    None => {
                        return false;
                    },
                };
                let b = match self.get_str(r) {
                    Some(x) => x,
                    None => {
                        return false;
                    },
                };
                let mut joined = a;
                joined.append(b.as_str());
                self.put(d, Value::Str(joined));
            },
            Opcode::SubInt(l0, r0, d0) => {
                let (l, r, d) = (*l0, *r0, *d0);
                let a = match self.get_int(l) {
                    Some(x) => x,
                    None => {
                        return false;
                    },
                };
                let b = match self.get_int(r) {
                    Some(x) => x,
                    None => {
                        return false;
                    },
                };
                self.put(d, Value::Int(a.wrapping_sub(b)));
            },
            Opcode::SubFloat(l0, r0, d0) => {
                let (l, r, d) = (*l0, *r0, *d0);
                let a = match self.get_float(l) {
                    Some(x) => x,
                    None => {
                        return false;
                    },
                };
                let b = match self.get_float(r) {
                    Some(x) => x,
                    None => {
                        return false;
                    },
                };
                self.put(d, Value::Float(float_sub(a, b)));
            },
            Opcode::MulInt(l0, r0, d0) => {
                let (l, r, d) = (*l0, *r0, *d0);
                let a = match self.get_int(l) {
                    Some(x) => x,
                    None => {
                        return false;
                    },
                };
                let b = match self.get_int(r) {
                    Some(x) => x,
                    None => {
                        return false;
                    },
                };
                self.put(d, Value::Int(a.wrapping_mul(b)));
            },
            Opcode::MulFloat(l0, r0, d0) => {
                let (l, r, d) = (*l0, *r0, *d0);
                let a = match self.get_float(l) {
                    Some(x) => x,
                    None => {
                        return false;
                    },
                };
                let b = match self.get_float(r) {
                    Some(x) => x,
                    None => {
                        return false;
                    },
                };
                self.put(d, Value::Float(float_mul(a, b)));
            },
            Opcode::MulStr(s0, n0, d0) => {
                let (sreg, nreg, d) = (*s0, *n0, *d0);
                let s = match self.get_str(sreg) {
                    Some(x) => x,
                    None => {
                        return false;
                    },
                };
                let n = match self.get_int(nreg) {
                    Some(x) => x,
                    None => {
                        return false;
                    },
                };
                let clamped: i64 = if n < 0 {
                    0
                } else {
                    n
                };
                let byte_len = s.as_str().len();
                if byte_len == 0 {
                    self.put(d, Value::Str(String::new()));
                } else if (clamped as u64) > (usize::MAX as u64) {
                    return false;
                } else {
                    let count = clamped as usize;
                    match byte_len.checked_mul(count) {
                        Some(_) => {},
                        None => {
                            return false;
                        },
                    }
                    let repeated = str_repeat(s.as_str(), count);
                    self.put(d, Value::Str(repeated));
                }
            },
            Opcode::DivInt(l0, r0, d0) => {
                let (l, r, d) = (*l0, *r0, *d0);
                let a = match self.get_int(l) {
                    Some(x) => x,
                    None => {
                        return false;
                    },
                };
                let b = match self.get_int(r) {
                    Some(x) => x,
                    None => {
                        return false;
                    },
                };
                let q = match a.checked_div(b) {
                    Some(x) => x,
                    None => {
                        return false;
                    },
                };
                self.put(d, Value::Int(q));
            },
            Opcode::DivFloat(l0, r0, d0) => {
                let (l, r, d) = (*l0, *r0, *d0);
                let a = match self.get_float(l) {
                    Some(x) => x,
                    None => {
                        return false;
                    },
                };
                let b = match self.get_float(r) {
                    Some(x) => x,
                    None => {
                        return false;
                    },
                };
                self.put(d, Value::Float(float_div(a, b)));
            },
            Opcode::ModInt(l0, r0, d0) => {
                let (l, r, d) = (*l0, *r0, *d0);
                let a = match self.get_int(l) {
                    Some(x) => x,
                    None => {
                        return false;
                    },
                };
                let b = match self.get_int(r) {
                    Some(x) => x,
                    None => {
                        return false;
                    },
                };
                let q = match a.checked_rem(b) {
                    Some(x) => x,
                    None => {
                        return false;
                    },
                };
                self.put(d, Value::Int(q));
            },
            Opcode::ModFloat(l0, r0, d0) => {
                let (l, r, d) = (*l0, *r0, *d0);
                let a = match self.get_float(l) {
                    Some(x) => x,
                    None => {
                        return false;
                    },
                };
                let b = match self.get_float(r) {
                    Some(x) => x,
                    None => {
                        return false;
                    },
                };
                self.put(d, Value::Float(float_rem(a, b)));
            },
            Opcode::NegInt(s0, d0) => {
                let (s, d) = (*s0, *d0);
                let a = match self.get_int(s) {
                    Some(x) => x,
                    None => {
                        return false;
                    },
                };
                self.put(d, Value::Int((-1i64).wrapping_mul(a)));
            },
            Opcode::NegFloat(s0, d0) => {
                let (s, d) = (*s0, *d0);
                let a = match self.get_float(s) {
                    Some(x) => x,
                    None => {
                        return false;
                    },
                };
                self.put(d, Value::Float(float_mul(0xBFF0000000000000u64, a)));
            },
            Opcode::NegBool(s0, d0) => {
                let (s, d) = (*s0, *d0);
                let a = match self.get_bool(s) {
                    Some(x) => x,
                    None => {
                        return false;
                    },
                };
                self.put(d, Value::Bool(!a));
            },
            Opcode::LoadInt(d0, v0) => {
                let (d, v) = (*d0, *v0);
                self.put(d, Value::Int(v));
            },
            Opcode::LoadFloat(d0, v0) => {
                let (d, v) = (*d0, *v0);
                self.put(d, Value::Float(v));
            },
            Opcode::LoadBool(d0, v0) => {
                let (d, v) = (*d0, *v0);
                self.put(d, Value::Bool(v));
            },
            Opcode::LoadStr(d0, v0) => {
                let d = *d0;
                let v = v0.clone();
                self.put(d, Value::Str(v));
            },
            Opcode::LoadChar(d0, v0) => {
                let (d, v) = (*d0, *v0);
                self.put(d, Value::Char(v));
            },
            Opcode::Copy(s0, d0) => {
                let (s, d) = (*s0, *d0);
                let v = self.registers[s as usize].duplicate();
                self.put(d, v);
            },
            Opcode::Save(s0) => {
                let s = *s0;
                let v = self.registers[s as usize].duplicate();
                self.return_value = Some(v);
            },
            Opcode::Jump(off0) => {
                let off = *off0;
                self.program_counter = self.program_counter.wrapping_add_signed(off as isize);
            },
            Opcode::JumpCond(c0, off0) => {
                let (c, off) = (*c0, *off0);
                let taken = match self.get_bool(c) {
                    Some(x) => x,
                    None => {
                        return false;
                    },
                };
                if !taken {
                    self.program_counter = self.program_counter.wrapping_add_signed(off as isize);
                }
            },
            Opcode::Error => {
                return false;
            },
        }
        self.program_counter = self.program_counter.wrapping_add(1);
        proof {
            match spec_step(old(self)@) {
                Some(m2) => {
                    assert(self@ =~= m2);
                },
                None => {
                    assert(false);
                },
            }
        }
        true
    }

    /// Run the thread to completion: from instruction 0 until the
    /// program counter leaves the instruction vector or a dispatch
    /// traps, for at most `u64::MAX` instructions.
    pub fn exec(&mut self)
        requires
            wf_thread(old(self)@),
        ensures
            final(self)@ == spec_run(
                ThreadModel { program_counter: 0, ..old(self)@ },
                u64::MAX as nat,
            ),
    {
        self.program_counter = 0;
        let ghost start = self@;
        proof {
            assert(start =~= (ThreadModel { program_counter: 0, ..old(self)@ }));
        }
        let mut fuel: u64 = u64::MAX;
        loop
            invariant
                wf_thread(self@),
                spec_run(start, u64::MAX as nat) == spec_run(self@, fuel as nat),
            ensures
                self@ == spec_run(start, u64::MAX as nat),
            decreases fuel,
        {
            if !(self.program_counter < self.instructions.len()) {
                break;
            }
            if fuel == 0 {
                break;
            }
            let ghost pre = self@;
            if !self.step() {
                proof {
                    assert(spec_run(pre, fuel as nat) == pre);
                }
                break;
            }
            fuel = fuel - 1;
            proof {
                assert(spec_run(pre, (fuel + 1) as nat) == spec_run(self@, fuel as nat));
            }
        }
    }
}

} // verus!
