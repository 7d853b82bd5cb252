pub mod error;
pub mod language_components;
pub mod parser;

use vstd::multiset::Multiset;
use vstd::prelude::*;

use crate::opcode::{Opcode, OpcodeModel};
use error::{Error, ErrorKind, ErrorKindModel, ErrorModel, spec_format_error};
use parser::spec_parse;
use language_components::{
    Assignment, AssignmentModel, AssignmentOperator, BasicBlock, BasicBlockModel, BinaryOperation,
    BinaryOperationModel, BinaryOperator, ControlFlow, ControlFlowModel, DataType, Expression,
    ExpressionModel, FunctionBody, FunctionBodyModel, Identifier, IdentifierModel, LetStatement,
    LetStatementModel, Literal, LiteralModel, ReturnStatement, ReturnStatementModel, Span,
    Statement, StatementModel, UnaryOperation, UnaryOperationModel, UnaryOperator, Value,
    ValueModel, WhileLoop, WhileLoopModel, spec_expr_model, spec_expression_model_span,
    spec_typename,
};

verus! {

/// A compile-time register descriptor: the slot index, the type of the
/// value the slot will hold at this point of the program, and whether the
/// slot is a scratch temporary (as opposed to a named variable's slot).
#[derive(Clone, Copy, Debug, PartialEq, Eq, Structural)]
pub struct Register {
    pub value: u8,
    pub data_type: DataType,
    pub is_temporary: bool,
}

impl Register {
    pub fn new(value: u8, data_type: DataType, is_temporary: bool) -> (r: Register)
        ensures
            r == (Register { value, data_type, is_temporary }),
    {
        Register { value, data_type, is_temporary }
    }
}

/// A pending result on the operand stack: either a literal value whose
/// materialisation into a register is deferred, or a register that
/// already holds the result.
#[derive(Debug)]
pub enum Operand {
    Value(Value),
    Register(Register),
}

/// The model of an `Operand`.
pub enum OperandModel {
    Value(ValueModel),
    Register(Register),
}

impl View for Operand {
    type V = OperandModel;

    open spec fn view(&self) -> OperandModel {
        match self {
            Operand::Value(v) => OperandModel::Value(v@),
            Operand::Register(r) => OperandModel::Register(*r),
        }
    }
}

/// The mathematical model of the compiler state.
#[verifier::ext_equal]
pub struct CompilerModel {
    pub filename: Seq<char>,
    pub source_code: Seq<char>,
    pub free: Seq<u8>,
    pub operands: Seq<OperandModel>,
    pub variables: Seq<(Seq<char>, Register)>,
    pub bytecode: Seq<OpcodeModel>,
}

/// Outcome of one step of compilation over the model: success, an error
/// in the source program, or an internal limit (register exhaustion or a
/// jump offset that does not fit its encoding).
pub enum CompileStep {
    Done(CompilerModel),
    UserError(ErrorModel),
    Fatal(Seq<char>),
}

/// The free list of a freshly constructed compiler: `[255, 254, ..., 0]`,
/// so that popping yields 0 first.
pub open spec fn spec_initial_free() -> Seq<u8> {
    Seq::new(256, |i: int| (255 - i) as u8)
}

pub open spec fn spec_fresh_compiler() -> CompilerModel {
    CompilerModel {
        filename: Seq::<char>::empty(),
        source_code: Seq::<char>::empty(),
        free: spec_initial_free(),
        operands: Seq::<OperandModel>::empty(),
        variables: Seq::<(Seq<char>, Register)>::empty(),
        bytecode: Seq::<OpcodeModel>::empty(),
    }
}

/// First binding of `name`, scanning from the front; the compiler keeps
/// names unique, so this is the binding of `name` if there is one.
pub open spec fn spec_lookup(vars: Seq<(Seq<char>, Register)>, name: Seq<char>) -> Option<Register>
    decreases vars.len(),
{
    if vars.len() == 0 {
        None
    } else if vars[0].0 == name {
        Some(vars[0].1)
    } else {
        spec_lookup(vars.drop_first(), name)
    }
}

/// Replace the first binding of `name`, or append one.
pub open spec fn spec_insert(
    vars: Seq<(Seq<char>, Register)>,
    name: Seq<char>,
    reg: Register,
) -> Seq<(Seq<char>, Register)>
    decreases vars.len(),
{
    if vars.len() == 0 {
        seq![(name, reg)]
    } else if vars[0].0 == name {
        seq![(name, reg)] + vars.drop_first()
    } else {
        seq![vars[0]] + spec_insert(vars.drop_first(), name, reg)
    }
}

proof fn lemma_lookup_found(vars: Seq<(Seq<char>, Register)>, name: Seq<char>, i: int)
    requires
        0 <= i < vars.len(),
        vars[i].0 == name,
        forall|k: int| 0 <= k < i ==> vars[k].0 != name,
    ensures
        spec_lookup(vars, name) == Some(vars[i].1),
    decreases i,
{
    if i > 0 {
        lemma_lookup_found(vars.drop_first(), name, i - 1);
    }
}

proof fn lemma_lookup_missing(vars: Seq<(Seq<char>, Register)>, name: Seq<char>)
    requires
        forall|k: int| 0 <= k < vars.len() ==> vars[k].0 != name,
    ensures
        spec_lookup(vars, name) == None::<Register>,
    decreases vars.len(),
{
    if vars.len() > 0 {
        lemma_lookup_missing(vars.drop_first(), name);
    }
}

proof fn lemma_insert_replaces(vars: Seq<(Seq<char>, Register)>, name: Seq<char>, reg: Register, i: int)
    requires
        0 <= i < vars.len(),
        vars[i].0 == name,
        forall|k: int| 0 <= k < i ==> vars[k].0 != name,
    ensures
        spec_insert(vars, name, reg) =~= vars.update(i, (name, reg)),
    decreases i,
{
    if i == 0 {
        assert(spec_insert(vars, name, reg) =~= vars.update(0, (name, reg)));
    } else {
        lemma_insert_replaces(vars.drop_first(), name, reg, i - 1);
        assert(spec_insert(vars, name, reg) =~= vars.update(i, (name, reg)));
    }
}

proof fn lemma_insert_appends(vars: Seq<(Seq<char>, Register)>, name: Seq<char>, reg: Register)
    requires
        forall|k: int| 0 <= k < vars.len() ==> vars[k].0 != name,
    ensures
        spec_insert(vars, name, reg) =~= vars.push((name, reg)),
    decreases vars.len(),
{
    if vars.len() == 0 {
        assert(spec_insert(vars, name, reg) =~= vars.push((name, reg)));
    } else {
        lemma_insert_appends(vars.drop_first(), name, reg);
        assert(spec_insert(vars, name, reg) =~= vars.push((name, reg)));
    }
}

/// The opcode that loads literal `v` into register `dst`.
pub open spec fn spec_load_op(dst: u8, v: ValueModel) -> OpcodeModel {
    match v {
        ValueModel::Int(x) => OpcodeModel::LoadInt(dst, x),
        ValueModel::Float(x) => OpcodeModel::LoadFloat(dst, x),
        ValueModel::Bool(x) => OpcodeModel::LoadBool(dst, x),
        ValueModel::Str(x) => OpcodeModel::LoadStr(dst, x),
        ValueModel::Char(x) => OpcodeModel::LoadChar(dst, x),
    }
}

/// The permitted `(operator, left type, right type)` combinations, and
/// the type of the result for each.
pub open spec fn spec_binary_rule(
    op: BinaryOperator,
    lt: DataType,
    rt: DataType,
) -> Option<DataType> {
    match op {
        BinaryOperator::Or | BinaryOperator::And => {
            if lt == DataType::Bool && rt == DataType::Bool {
                Some(DataType::Bool)
            } else {
                None
            }
        },
        BinaryOperator::Equal | BinaryOperator::NotEqual => {
            if lt == rt {
                Some(DataType::Bool)
            } else {
                None
            }
        },
        BinaryOperator::LessThan
        | BinaryOperator::LessEq
        | BinaryOperator::GreaterThan
        | BinaryOperator::GreaterEq => {
            if lt == rt && lt != DataType::Bool {
                Some(DataType::Bool)
            } else {
                None
            }
        },
        BinaryOperator::Add => {
            if lt == rt && (lt == DataType::Int || lt == DataType::Float || lt == DataType::Str) {
                Some(lt)
            } else {
                None
            }
        },
        BinaryOperator::Sub | BinaryOperator::Div | BinaryOperator::Mod => {
            if lt == rt && (lt == DataType::Int || lt == DataType::Float) {
                Some(lt)
            } else {
                None
            }
        },
        BinaryOperator::Mul => {
            if lt == rt && (lt == DataType::Int || lt == DataType::Float) {
                Some(lt)
            } else if lt == DataType::Str && rt == DataType::Int {
                Some(DataType::Str)
            } else if lt == DataType::Int && rt == DataType::Str {
                Some(DataType::Str)
            } else {
                None
            }
        },
    }
}

/// The typed opcode emitted for a permitted binary combination.
/// `MulStr` always takes the string operand first and the repeat count
/// second, so the `Int x Str` form swaps its operands.
pub open spec fn spec_binary_opcode(
    op: BinaryOperator,
    lt: DataType,
    rt: DataType,
    l: u8,
    r: u8,
    d: u8,
) -> OpcodeModel {
    match op {
        BinaryOperator::Or => OpcodeModel::Or(l, r, d),
        BinaryOperator::And => OpcodeModel::And(l, r, d),
        BinaryOperator::Equal => match lt {
            DataType::Int => OpcodeModel::EqualInt(l, r, d),
            DataType::Float => OpcodeModel::EqualFloat(l, r, d),
            DataType::Bool => OpcodeModel::EqualBool(l, r, d),
            DataType::Str => OpcodeModel::EqualStr(l, r, d),
            DataType::Char => OpcodeModel::EqualChar(l, r, d),
        },
        BinaryOperator::NotEqual => match lt {
            DataType::Int => OpcodeModel::NotEqualInt(l, r, d),
            DataType::Float => OpcodeModel::NotEqualFloat(l, r, d),
            DataType::Bool => OpcodeModel::NotEqualBool(l, r, d),
            DataType::Str => OpcodeModel::NotEqualStr(l, r, d),
            DataType::Char => OpcodeModel::NotEqualChar(l, r, d),
        },
        BinaryOperator::LessThan => match lt {
            DataType::Float => OpcodeModel::LessThanFloat(l, r, d),
            DataType::Str => OpcodeModel::LessThanStr(l, r, d),
            DataType::Char => OpcodeModel::LessThanChar(l, r, d),
            _ => OpcodeModel::LessThanInt(l, r, d),
        },
        BinaryOperator::LessEq => match lt {
            DataType::Float => OpcodeModel::LessEqFloat(l, r, d),
            DataType::Str => OpcodeModel::LessEqStr(l, r, d),
            DataType::Char => OpcodeModel::LessEqChar(l, r, d),
            _ => OpcodeModel::LessEqInt(l, r, d),
        },
        BinaryOperator::GreaterThan => match lt {
            DataType::Float => OpcodeModel::GreaterThanFloat(l, r, d),
            DataType::Str => OpcodeModel::GreaterThanStr(l, r, d),
            DataType::Char => OpcodeModel::GreaterThanChar(l, r, d),
            _ => OpcodeModel::GreaterThanInt(l, r, d),
        },
        BinaryOperator::GreaterEq => match lt {
            DataType::Float => OpcodeModel::GreaterEqFloat(l, r, d),
            DataType::Str => OpcodeModel::GreaterEqStr(l, r, d),
            DataType::Char => OpcodeModel::GreaterEqChar(l, r, d),
            _ => OpcodeModel::GreaterEqInt(l, r, d),
        },
        BinaryOperator::Add => match lt {
            DataType::Float => OpcodeModel::AddFloat(l, r, d),
            DataType::Str => OpcodeModel::AddStr(l, r, d),
            _ => OpcodeModel::AddInt(l, r, d),
        },
        BinaryOperator::Sub => match lt {
            DataType::Float => OpcodeModel::SubFloat(l, r, d),
            _ => OpcodeModel::SubInt(l, r, d),
        },
        BinaryOperator::Mul => {
            if lt == DataType::Str {
                OpcodeModel::MulStr(l, r, d)
            } else if rt == DataType::Str {
                OpcodeModel::MulStr(r, l, d)
            } else if lt == DataType::Float {
                OpcodeModel::MulFloat(l, r, d)
            } else {
                OpcodeModel::MulInt(l, r, d)
            }
        },
        BinaryOperator::Div => match lt {
            DataType::Float => OpcodeModel::DivFloat(l, r, d),
            _ => OpcodeModel::DivInt(l, r, d),
        },
        BinaryOperator::Mod => match lt {
            DataType::Float => OpcodeModel::ModFloat(l, r, d),
            _ => OpcodeModel::ModInt(l, r, d),
        },
    }
}

/// The permitted unary combinations and their result types.
pub open spec fn spec_unary_rule(op: UnaryOperator, t: DataType) -> Option<DataType> {
    match (op, t) {
        (UnaryOperator::Neg, DataType::Int) => Some(DataType::Int),
        (UnaryOperator::Neg, DataType::Float) => Some(DataType::Float),
        (UnaryOperator::Not, DataType::Bool) => Some(DataType::Bool),
        _ => None,
    }
}

pub open spec fn spec_unary_opcode(op: UnaryOperator, t: DataType, s: u8, d: u8) -> OpcodeModel {
    match (op, t) {
        (UnaryOperator::Neg, DataType::Float) => OpcodeModel::NegFloat(s, d),
        (UnaryOperator::Not, DataType::Bool) => OpcodeModel::NegBool(s, d),
        _ => OpcodeModel::NegInt(s, d),
    }
}

/// Pop the top operand and make sure it sits in a register: a register
/// operand is returned as it is; a literal is loaded into a register
/// popped from the free list. `None` means the free list was empty.
pub open spec fn spec_materialise(m: CompilerModel) -> Option<(CompilerModel, Register)>
    recommends
        m.operands.len() > 0,
{
    let top = m.operands.last();
    let popped = CompilerModel { operands: m.operands.drop_last(), ..m };
    match top {
        OperandModel::Register(r) => Some((popped, r)),
        OperandModel::Value(v) => {
            if m.free.len() == 0 {
                None
            } else {
                let idx = m.free.last();
                let reg = Register { value: idx, data_type: v.data_type(), is_temporary: true };
                Some(
                    (
                        CompilerModel {
                            free: popped.free.drop_last(),
                            bytecode: popped.bytecode.push(spec_load_op(idx, v)),
                            ..popped
                        },
                        reg,
                    ),
                )
            }
        },
    }
}

pub open spec fn spec_out_of_registers() -> Seq<char> {
    "Ran out of registers"@
}

pub open spec fn spec_jump_too_far() -> Seq<char> {
    "Jump offset cannot fit into i16"@
}

/// The outcome for a model tree whose operator node does not have its
/// operand count; the view of a real tree never produces one.
pub open spec fn spec_malformed_tree() -> Seq<char> {
    "Malformed syntax tree"@
}

/// The reserved keywords that may not be used as variable names.
pub open spec fn spec_is_keyword(name: Seq<char>) -> bool {
    name == "let"@ || name == "return"@
}


/// The error for an identifier that has no binding.
pub open spec fn spec_identifier_not_found(
    m: CompilerModel,
    ident: IdentifierModel,
    context: Span,
) -> ErrorModel {
    ErrorModel {
        filename: m.filename,
        source_code: m.source_code,
        kind: ErrorKindModel::IdentifierNotFound,
        context,
        error: ident.span,
    }
}

/// The error for an operator applied to types it does not accept.
pub open spec fn spec_binop_error(
    m: CompilerModel,
    b: BinaryOperationModel,
    lt: DataType,
    rt: DataType,
) -> ErrorModel {
    ErrorModel {
        filename: m.filename,
        source_code: m.source_code,
        kind: ErrorKindModel::InvalidBinaryOperation(
            b.operator,
            spec_typename(lt),
            spec_typename(rt),
        ),
        context: spec_expression_model_span(b.left()),
        error: b.operator_span,
    }
}

pub open spec fn spec_unop_error(m: CompilerModel, u: UnaryOperationModel, t: DataType) -> ErrorModel {
    ErrorModel {
        filename: m.filename,
        source_code: m.source_code,
        kind: ErrorKindModel::InvalidUnaryOperation(u.operator, spec_typename(t)),
        context: u.span,
        error: u.operator_span,
    }
}

pub open spec fn spec_assign_error(
    m: CompilerModel,
    lt: DataType,
    rt: DataType,
    context: Span,
    error: Span,
) -> ErrorModel {
    ErrorModel {
        filename: m.filename,
        source_code: m.source_code,
        kind: ErrorKindModel::InvalidAssignment(spec_typename(lt), spec_typename(rt)),
        context,
        error,
    }
}

pub open spec fn spec_keyword_error(m: CompilerModel, l: LetStatementModel) -> ErrorModel {
    ErrorModel {
        filename: m.filename,
        source_code: m.source_code,
        kind: ErrorKindModel::IdentifierIsKeyword,
        context: l.span,
        error: l.identifier.span,
    }
}

pub open spec fn spec_while_cond_error(m: CompilerModel, w: WhileLoopModel, t: DataType) -> ErrorModel {
    ErrorModel {
        filename: m.filename,
        source_code: m.source_code,
        kind: ErrorKindModel::ArgumentInvalidType(
            spec_typename(DataType::Bool),
            spec_typename(t),
        ),
        context: w.span,
        error: spec_expression_model_span(w.condition),
    }
}

/// Compiling an expression: depth first, left before right; both pending
/// results are then materialised (right first, popping in stack order),
/// the destination register is chosen, the typed opcode is emitted, and
/// consumed temporaries whose index is not the destination go back to
/// the free list. A `target` register is used only for the final opcode
/// of this expression; subexpressions choose their own registers.
pub open spec fn spec_compile_expression(
    e: ExpressionModel,
    target: Option<u8>,
    m: CompilerModel,
) -> CompileStep
    decreases e,
    via spec_compile_expression_decreases
{
    match e {
        ExpressionModel::Literal(l) => CompileStep::Done(
            CompilerModel { operands: m.operands.push(OperandModel::Value(l.value)), ..m },
        ),
        ExpressionModel::Identifier(i) => match spec_lookup(m.variables, i.name) {
            Some(r) => CompileStep::Done(
                CompilerModel { operands: m.operands.push(OperandModel::Register(r)), ..m },
            ),
            None => CompileStep::UserError(spec_identifier_not_found(m, i, i.span)),
        },
        ExpressionModel::BinaryOperation(b) => {
            if b.operands.len() != 2 {
                CompileStep::Fatal(spec_malformed_tree())
            } else {
                match spec_compile_expression(b.operands[0], None, m) {
                    CompileStep::Done(m1) => match spec_compile_expression(
                        b.operands[1],
                        None,
                        m1,
                    ) {
                        CompileStep::Done(m2) => spec_emit_binary(b, target, m2),
                        other => other,
                    },
                    other => other,
                }
            }
        },
        ExpressionModel::UnaryOperation(u) => {
            if u.operands.len() != 1 {
                CompileStep::Fatal(spec_malformed_tree())
            } else {
                match spec_compile_expression(u.operands[0], None, m) {
                    CompileStep::Done(m1) => spec_emit_unary(u, target, m1),
                    other => other,
                }
            }
        },
    }
}

/// An operator node's children are structurally smaller than the node.
proof fn proof_decreases_children(e: ExpressionModel)
    ensures
        e matches ExpressionModel::BinaryOperation(b) ==> (b.operands.len() == 2
            ==> decreases_to!(e => b.operands[0]) && decreases_to!(e => b.operands[1])),
        e matches ExpressionModel::UnaryOperation(u) ==> (u.operands.len() == 1 ==> decreases_to!(
            e => u.operands[0],
        )),
{
    match e {
        ExpressionModel::BinaryOperation(b) => {
            if b.operands.len() == 2 {
                assert(decreases_to!(e => b.operands));
                vstd::seq::axiom_seq_index_decreases(b.operands, 0);
                vstd::seq::axiom_seq_index_decreases(b.operands, 1);
            }
        },
        ExpressionModel::UnaryOperation(u) => {
            if u.operands.len() == 1 {
                assert(decreases_to!(e => u.operands));
                vstd::seq::axiom_seq_index_decreases(u.operands, 0);
            }
        },
        _ => {},
    }
}

#[via_fn]
proof fn spec_compile_expression_decreases(e: ExpressionModel, target: Option<u8>, m: CompilerModel) {
    proof_decreases_children(e);
}

/// The destination of an operation: an explicit target if given, else a
/// consumed temporary (right before left), else a fresh register.
pub open spec fn spec_choose_destination(
    target: Option<u8>,
    left: Register,
    right: Option<Register>,
    m: CompilerModel,
) -> Option<(CompilerModel, u8)> {
    match target {
        Some(d) => Some((m, d)),
        None => {
            if right is Some && right->0.is_temporary {
                Some((m, right->0.value))
            } else if left.is_temporary {
                Some((m, left.value))
            } else if m.free.len() == 0 {
                None
            } else {
                Some((CompilerModel { free: m.free.drop_last(), ..m }, m.free.last()))
            }
        },
    }
}

/// Emitting the opcode of a binary operation whose two operands sit on
/// top of the operand stack.
pub open spec fn spec_emit_binary(
    b: BinaryOperationModel,
    target: Option<u8>,
    m: CompilerModel,
) -> CompileStep
    recommends
        m.operands.len() >= 2,
{
    match spec_materialise(m) {
        None => CompileStep::Fatal(spec_out_of_registers()),
        Some((m3, right)) => match spec_materialise(m3) {
            None => CompileStep::Fatal(spec_out_of_registers()),
            Some((m4, left)) => match spec_binary_rule(
                b.operator,
                left.data_type,
                right.data_type,
            ) {
                None => CompileStep::UserError(
                    spec_binop_error(m4, b, left.data_type, right.data_type),
                ),
                Some(result_type) => match spec_choose_destination(target, left, Some(right), m4) {
                    None => CompileStep::Fatal(spec_out_of_registers()),
                    Some((m5, d)) => {
                        let m6 = CompilerModel {
                            bytecode: m5.bytecode.push(
                                spec_binary_opcode(
                                    b.operator,
                                    left.data_type,
                                    right.data_type,
                                    left.value,
                                    right.value,
                                    d,
                                ),
                            ),
                            operands: m5.operands.push(
                                OperandModel::Register(
                                    Register { value: d, data_type: result_type, is_temporary: true },
                                ),
                            ),
                            ..m5
                        };
                        let m7 = if left.is_temporary && left.value != d {
                            CompilerModel { free: m6.free.push(left.value), ..m6 }
                        } else {
                            m6
                        };
                        let m8 = if right.is_temporary && right.value != d {
                            CompilerModel { free: m7.free.push(right.value), ..m7 }
                        } else {
                            m7
                        };
                        CompileStep::Done(m8)
                    },
                },
            },
        },
    }
}

/// Emitting the opcode of a unary operation whose operand sits on top
/// of the operand stack.
pub open spec fn spec_emit_unary(
    u: UnaryOperationModel,
    target: Option<u8>,
    m: CompilerModel,
) -> CompileStep
    recommends
        m.operands.len() >= 1,
{
    match spec_materialise(m) {
        None => CompileStep::Fatal(spec_out_of_registers()),
        Some((m1, operand)) => match spec_unary_rule(u.operator, operand.data_type) {
            None => CompileStep::UserError(spec_unop_error(m1, u, operand.data_type)),
            Some(result_type) => match spec_choose_destination(target, operand, None, m1) {
                None => CompileStep::Fatal(spec_out_of_registers()),
                Some((m2, d)) => {
                    let m3 = CompilerModel {
                        bytecode: m2.bytecode.push(
                            spec_unary_opcode(u.operator, operand.data_type, operand.value, d),
                        ),
                        operands: m2.operands.push(
                            OperandModel::Register(
                                Register { value: d, data_type: result_type, is_temporary: true },
                            ),
                        ),
                        ..m2
                    };
                    let m4 = if operand.is_temporary && operand.value != d {
                        CompilerModel { free: m3.free.push(operand.value), ..m3 }
                    } else {
                        m3
                    };
                    CompileStep::Done(m4)
                },
            },
        },
    }
}

/// Compiling a `let`: the right-hand side lands in a register of its
/// own (a variable alias is copied into a fresh one), which is marked
/// non-temporary and bound to the name. A binding of a live name is
/// replaced; the replaced register stays allocated.
pub open spec fn spec_compile_let(l: LetStatementModel, m: CompilerModel) -> CompileStep {
    if spec_is_keyword(l.identifier.name) {
        CompileStep::UserError(spec_keyword_error(m, l))
    } else {
        match spec_compile_expression(l.expression, None, m) {
            CompileStep::Done(m1) => match spec_materialise(m1) {
                None => CompileStep::Fatal(spec_out_of_registers()),
                Some((m2, reg)) => {
                    if reg.is_temporary {
                        CompileStep::Done(
                            CompilerModel {
                                variables: spec_insert(
                                    m2.variables,
                                    l.identifier.name,
                                    Register {
                                        value: reg.value,
                                        data_type: reg.data_type,
                                        is_temporary: false,
                                    },
                                ),
                                ..m2
                            },
                        )
                    } else if m2.free.len() == 0 {
                        CompileStep::Fatal(spec_out_of_registers())
                    } else {
                        let idx = m2.free.last();
                        CompileStep::Done(
                            CompilerModel {
                                free: m2.free.drop_last(),
                                bytecode: m2.bytecode.push(OpcodeModel::Copy(reg.value, idx)),
                                variables: spec_insert(
                                    m2.variables,
                                    l.identifier.name,
                                    Register {
                                        value: idx,
                                        data_type: reg.data_type,
                                        is_temporary: false,
                                    },
                                ),
                                ..m2
                            },
                        )
                    }
                },
            },
            other => other,
        }
    }
}

pub open spec fn spec_assignment_operator_binop(op: AssignmentOperator) -> BinaryOperator {
    match op {
        AssignmentOperator::Add => BinaryOperator::Add,
        AssignmentOperator::Sub => BinaryOperator::Sub,
        AssignmentOperator::Mul => BinaryOperator::Mul,
        AssignmentOperator::Div => BinaryOperator::Div,
        AssignmentOperator::Mod => BinaryOperator::Mod,
        AssignmentOperator::Basic => BinaryOperator::Add,
    }
}

/// Compiling an assignment. With `=` the value lands in the variable's
/// register: a literal is loaded directly, another variable is copied,
/// a computed value is threaded down so the final opcode writes in
/// place. A compound operator emits the corresponding binary opcode
/// with the variable's register as left source and destination.
pub open spec fn spec_compile_assignment(a: AssignmentModel, m: CompilerModel) -> CompileStep {
    match spec_lookup(m.variables, a.lhs.name) {
        None => CompileStep::UserError(spec_identifier_not_found(m, a.lhs, a.span)),
        Some(lhs_reg) => match a.operator {
            AssignmentOperator::Basic => match a.rhs {
                ExpressionModel::Literal(lit) => {
                    if lhs_reg.data_type == lit.value.data_type() {
                        CompileStep::Done(
                            CompilerModel {
                                bytecode: m.bytecode.push(spec_load_op(lhs_reg.value, lit.value)),
                                ..m
                            },
                        )
                    } else {
                        CompileStep::UserError(
                            spec_assign_error(
                                m,
                                lhs_reg.data_type,
                                lit.value.data_type(),
                                a.span,
                                a.operator_span,
                            ),
                        )
                    }
                },
                ExpressionModel::Identifier(id2) => match spec_lookup(m.variables, id2.name) {
                    None => CompileStep::UserError(spec_identifier_not_found(m, id2, a.span)),
                    Some(rhs_reg) => {
                        if lhs_reg.data_type == rhs_reg.data_type {
                            CompileStep::Done(
                                CompilerModel {
                                    bytecode: m.bytecode.push(
                                        OpcodeModel::Copy(rhs_reg.value, lhs_reg.value),
                                    ),
                                    ..m
                                },
                            )
                        } else {
                            CompileStep::UserError(
                                spec_assign_error(
                                    m,
                                    lhs_reg.data_type,
                                    rhs_reg.data_type,
                                    a.span,
                                    a.operator_span,
                                ),
                            )
                        }
                    },
                },
                _ => match spec_compile_expression(a.rhs, Some(lhs_reg.value), m) {
                    CompileStep::Done(m1) => match spec_materialise(m1) {
                        None => CompileStep::Fatal(spec_out_of_registers()),
                        Some((m2, res_reg)) => {
                            if lhs_reg.data_type == res_reg.data_type {
                                CompileStep::Done(m2)
                            } else {
                                CompileStep::UserError(
                                    spec_assign_error(
                                        m2,
                                        lhs_reg.data_type,
                                        res_reg.data_type,
                                        a.span,
                                        a.operator_span,
                                    ),
                                )
                            }
                        },
                    },
                    other => other,
                },
            },
            _ => {
                let bop = spec_assignment_operator_binop(a.operator);
                match spec_compile_expression(a.rhs, None, m) {
                    CompileStep::Done(m1) => match spec_materialise(m1) {
                        None => CompileStep::Fatal(spec_out_of_registers()),
                        Some((m2, rhs_reg)) => match spec_binary_rule(
                            bop,
                            lhs_reg.data_type,
                            rhs_reg.data_type,
                        ) {
                            Some(result_type) => {
                                if result_type == lhs_reg.data_type {
                                    let m3 = CompilerModel {
                                        bytecode: m2.bytecode.push(
                                            spec_binary_opcode(
                                                bop,
                                                lhs_reg.data_type,
                                                rhs_reg.data_type,
                                                lhs_reg.value,
                                                rhs_reg.value,
                                                lhs_reg.value,
                                            ),
                                        ),
                                        ..m2
                                    };
                                    CompileStep::Done(
                                        if rhs_reg.is_temporary && rhs_reg.value != lhs_reg.value {
                                            CompilerModel {
                                                free: m3.free.push(rhs_reg.value),
                                                ..m3
                                            }
                                        } else {
                                            m3
                                        },
                                    )
                                } else {
                                    CompileStep::UserError(
                                        spec_assign_error(
                                            m2,
                                            lhs_reg.data_type,
                                            rhs_reg.data_type,
                                            a.span,
                                            a.operator_span,
                                        ),
                                    )
                                }
                            },
                            None => CompileStep::UserError(
                                spec_assign_error(
                                    m2,
                                    lhs_reg.data_type,
                                    rhs_reg.data_type,
                                    a.span,
                                    a.operator_span,
                                ),
                            ),
                        },
                    },
                    other => other,
                }
            },
        },
    }
}

/// Compiling one statement.
pub open spec fn spec_compile_statement(st: StatementModel, m: CompilerModel) -> CompileStep {
    match st {
        StatementModel::LetStatement(l) => spec_compile_let(l, m),
        StatementModel::Assignment(a) => spec_compile_assignment(a, m),
        StatementModel::ReturnStatement(r) => match spec_compile_expression(r.expression, None, m) {
            CompileStep::Done(m1) => match spec_materialise(m1) {
                None => CompileStep::Fatal(spec_out_of_registers()),
                Some((m2, reg)) => {
                    let m3 = CompilerModel {
                        bytecode: m2.bytecode.push(OpcodeModel::Save(reg.value)),
                        ..m2
                    };
                    CompileStep::Done(
                        if reg.is_temporary {
                            CompilerModel { free: m3.free.push(reg.value), ..m3 }
                        } else {
                            m3
                        },
                    )
                },
            },
            other => other,
        },
        StatementModel::Expression(e) => match spec_compile_expression(e, None, m) {
            CompileStep::Done(m1) => match spec_materialise(m1) {
                None => CompileStep::Fatal(spec_out_of_registers()),
                Some((m2, reg)) => CompileStep::Done(
                    if reg.is_temporary {
                        CompilerModel { free: m2.free.push(reg.value), ..m2 }
                    } else {
                        m2
                    },
                ),
            },
            other => other,
        },
    }
}

/// Compiling the statements of a block, in order.
pub open spec fn spec_compile_statements(ss: Seq<StatementModel>, m: CompilerModel) -> CompileStep
    decreases ss.len(),
{
    if ss.len() == 0 {
        CompileStep::Done(m)
    } else {
        match spec_compile_statement(ss[0], m) {
            CompileStep::Done(m1) => spec_compile_statements(ss.drop_first(), m1),
            other => other,
        }
    }
}

/// Compiling a while loop, as described in the lowering scheme: the
/// condition first, then a placeholder at index `j` for the conditional
/// exit, then the body, then the backward jump to the condition; the
/// placeholder becomes a conditional jump past the end. Offsets account
/// for the interpreter's post-instruction increment of the program
/// counter. An offset beyond the signed 16-bit range stops compilation.
pub open spec fn spec_compile_while(w: WhileLoopModel, m: CompilerModel) -> CompileStep {
    let start = m.bytecode.len() as int;
    match spec_compile_expression(w.condition, None, m) {
        CompileStep::Done(m1) => match spec_materialise(m1) {
            None => CompileStep::Fatal(spec_out_of_registers()),
            Some((m2, cond)) => {
                if cond.data_type != DataType::Bool {
                    CompileStep::UserError(spec_while_cond_error(m2, w, cond.data_type))
                } else {
                    let jidx = m2.bytecode.len() as int;
                    let m3 = CompilerModel { bytecode: m2.bytecode.push(OpcodeModel::Error), ..m2 };
                    match spec_compile_statements(w.body.statements, m3) {
                        CompileStep::Done(m4) => {
                            let back = m4.bytecode.len() - start + 1;
                            if back > 32767 {
                                CompileStep::Fatal(spec_jump_too_far())
                            } else {
                                let m5 = CompilerModel {
                                    bytecode: m4.bytecode.push(OpcodeModel::Jump((-back) as i16)),
                                    ..m4
                                };
                                let fwd = m5.bytecode.len() - jidx - 1;
                                if fwd > 32767 {
                                    CompileStep::Fatal(spec_jump_too_far())
                                } else {
                                    CompileStep::Done(
                                        CompilerModel {
                                            bytecode: m5.bytecode.update(
                                                jidx,
                                                OpcodeModel::JumpCond(cond.value, fwd as i16),
                                            ),
                                            ..m5
                                        },
                                    )
                                }
                            }
                        },
                        other => other,
                    }
                }
            },
        },
        other => other,
    }
}

/// Compiling one control-flow unit.
pub open spec fn spec_compile_control_flow(cf: ControlFlowModel, m: CompilerModel) -> CompileStep {
    match cf {
        ControlFlowModel::BasicBlock(b) => spec_compile_statements(b.statements, m),
        ControlFlowModel::WhileLoop(w) => spec_compile_while(w, m),
    }
}

/// Compiling the control-flow units of a function body, in order.
pub open spec fn spec_compile_units(cfs: Seq<ControlFlowModel>, m: CompilerModel) -> CompileStep
    decreases cfs.len(),
{
    if cfs.len() == 0 {
        CompileStep::Done(m)
    } else {
        match spec_compile_control_flow(cfs[0], m) {
            CompileStep::Done(m1) => spec_compile_units(cfs.drop_first(), m1),
            other => other,
        }
    }
}

/// Compiling a whole function body on a fresh compiler that holds the
/// given source text and file name.
pub open spec fn spec_compile_body(
    body: FunctionBodyModel,
    source: Seq<char>,
    filename: Seq<char>,
) -> CompileStep {
    spec_compile_units(
        body.control_flow_structures,
        CompilerModel { filename, source_code: source, ..spec_fresh_compiler() },
    )
}


/// The result type of a permitted binary combination, or `None`.
fn binary_rule(op: BinaryOperator, lt: DataType, rt: DataType) -> (r: Option<DataType>)
    ensures
        r == spec_binary_rule(op, lt, rt),
{
    match op {
        BinaryOperator::Or | BinaryOperator::And => {
            if lt == DataType::Bool && rt == DataType::Bool {
                Some(DataType::Bool)
            } else {
                None
            }
        },
        BinaryOperator::Equal | BinaryOperator::NotEqual => {
            if lt == rt {
                Some(DataType::Bool)
            } else {
                None
            }
        },
        BinaryOperator::LessThan
        | BinaryOperator::LessEq
        | BinaryOperator::GreaterThan
        | BinaryOperator::GreaterEq => {
            if lt == rt && !(lt == DataType::Bool) {
                Some(DataType::Bool)
            } else {
                None
            }
        },
        BinaryOperator::Add => {
            if lt == rt && (lt == DataType::Int || lt == DataType::Float || lt == DataType::Str) {
                Some(lt)
            } else {
                None
            }
        },
        BinaryOperator::Sub | BinaryOperator::Div | BinaryOperator::Mod => {
            if lt == rt && (lt == DataType::Int || lt == DataType::Float) {
                Some(lt)
            } else {
                None
            }
        },
        BinaryOperator::Mul => {
            if lt == rt && (lt == DataType::Int || lt == DataType::Float) {
                Some(lt)
            } else if lt == DataType::Str && rt == DataType::Int {
                Some(DataType::Str)
            } else if lt == DataType::Int && rt == DataType::Str {
                Some(DataType::Str)
            } else {
                None
            }
        },
    }
}

/// The typed opcode for a permitted binary combination.
fn build_binary_opcode(
    op: BinaryOperator,
    lt: DataType,
    rt: DataType,
    l: u8,
    r: u8,
    d: u8,
) -> (oc: Opcode)
    ensures
        oc@ == spec_binary_opcode(op, lt, rt, l, r, d),
{
    match op {
        BinaryOperator::Or => Opcode::Or(l, r, d),
        BinaryOperator::And => Opcode::And(l, r, d),
        BinaryOperator::Equal => match lt {
            DataType::Int => Opcode::EqualInt(l, r, d),
            DataType::Float => Opcode::EqualFloat(l, r, d),
            DataType::Bool => Opcode::EqualBool(l, r, d),
            DataType::Str => Opcode::EqualStr(l, r, d),
            DataType::Char => Opcode::EqualChar(l, r, d),
        },
        BinaryOperator::NotEqual => match lt {
            DataType::Int => Opcode::NotEqualInt(l, r, d),
            DataType::Float => Opcode::NotEqualFloat(l, r, d),
            DataType::Bool => Opcode::NotEqualBool(l, r, d),
            DataType::Str => Opcode::NotEqualStr(l, r, d),
            DataType::Char => Opcode::NotEqualChar(l, r, d),
        },
        BinaryOperator::LessThan => match lt {
            DataType::Float => Opcode::LessThanFloat(l, r, d),
            DataType::Str => Opcode::LessThanStr(l, r, d),
            DataType::Char => Opcode::LessThanChar(l, r, d),
            _ => Opcode::LessThanInt(l, r, d),
        },
        BinaryOperator::LessEq => match lt {
            DataType::Float => Opcode::LessEqFloat(l, r, d),
            DataType::Str => Opcode::LessEqStr(l, r, d),
            DataType::Char => Opcode::LessEqChar(l, r, d),
            _ => Opcode::LessEqInt(l, r, d),
        },
        BinaryOperator::GreaterThan => match lt {
            DataType::Float => Opcode::GreaterThanFloat(l, r, d),
            DataType::Str => Opcode::GreaterThanStr(l, r, d),
            DataType::Char => Opcode::GreaterThanChar(l, r, d),
            _ => Opcode::GreaterThanInt(l, r, d),
        },
        BinaryOperator::GreaterEq => match lt {
            DataType::Float => Opcode::GreaterEqFloat(l, r, d),
            DataType::Str => Opcode::GreaterEqStr(l, r, d),
            DataType::Char => Opcode::GreaterEqChar(l, r, d),
            _ => Opcode::GreaterEqInt(l, r, d),
        },
        BinaryOperator::Add => match lt {
            DataType::Float => Opcode::AddFloat(l, r, d),
            DataType::Str => Opcode::AddStr(l, r, d),
            _ => Opcode::AddInt(l, r, d),
        },
        BinaryOperator::Sub => match lt {
            DataType::Float => Opcode::SubFloat(l, r, d),
            _ => Opcode::SubInt(l, r, d),
        },
        BinaryOperator::Mul => {
            if lt == DataType::Str {
                Opcode::MulStr(l, r, d)
            } else if rt == DataType::Str {
                Opcode::MulStr(r, l, d)
            } else if lt == DataType::Float {
                Opcode::MulFloat(l, r, d)
            } else {
                Opcode::MulInt(l, r, d)
            }
        },
        BinaryOperator::Div => match lt {
            DataType::Float => Opcode::DivFloat(l, r, d),
            _ => Opcode::DivInt(l, r, d),
        },
        BinaryOperator::Mod => match lt {
            DataType::Float => Opcode::ModFloat(l, r, d),
            _ => Opcode::ModInt(l, r, d),
        },
    }
}

/// The result type of a permitted unary combination, or `None`.
fn unary_rule(op: UnaryOperator, t: DataType) -> (r: Option<DataType>)
    ensures
        r == spec_unary_rule(op, t),
{
    match (op, t) {
        (UnaryOperator::Neg, DataType::Int) => Some(DataType::Int),
        (UnaryOperator::Neg, DataType::Float) => Some(DataType::Float),
        (UnaryOperator::Not, DataType::Bool) => Some(DataType::Bool),
        _ => None,
    }
}

fn build_unary_opcode(op: UnaryOperator, t: DataType, source: u8, d: u8) -> (oc: Opcode)
    ensures
        oc@ == spec_unary_opcode(op, t, source, d),
{
    match (op, t) {
        (UnaryOperator::Neg, DataType::Float) => Opcode::NegFloat(source, d),
        (UnaryOperator::Not, DataType::Bool) => Opcode::NegBool(source, d),
        _ => Opcode::NegInt(source, d),
    }
}

/// Compiling an expression leaves exactly one more pending result on
/// the operand stack.
proof fn lemma_expr_operands(e: ExpressionModel, target: Option<u8>, m: CompilerModel)
    ensures
        spec_compile_expression(e, target, m) matches CompileStep::Done(m2) ==> m2.operands.len()
            == m.operands.len() + 1 && m2.operands.drop_last() =~= m.operands,
    decreases e,
{
    match e {
        ExpressionModel::Literal(_) => {},
        ExpressionModel::Identifier(_) => {},
        ExpressionModel::BinaryOperation(b) => {
            if b.operands.len() == 2 {
            proof_decreases_children(e);
            lemma_expr_operands(b.operands[0], None, m);
            match spec_compile_expression(b.operands[0], None, m) {
                CompileStep::Done(m1) => {
                    lemma_expr_operands(b.right(), None, m1);
                },
                _ => {},
            }
        }
        },
        ExpressionModel::UnaryOperation(u) => {
            if u.operands.len() == 1 {
            proof_decreases_children(e);
            lemma_expr_operands(u.operands[0], None, m);
        }
        },
    }
}


/// Compiling an expression never removes instructions.
proof fn lemma_expr_grows(e: ExpressionModel, target: Option<u8>, m: CompilerModel)
    ensures
        spec_compile_expression(e, target, m) matches CompileStep::Done(m2) ==> m2.bytecode.len()
            >= m.bytecode.len(),
    decreases e,
{
    match e {
        ExpressionModel::Literal(_) => {},
        ExpressionModel::Identifier(_) => {},
        ExpressionModel::BinaryOperation(b) => {
            if b.operands.len() == 2 {
            proof_decreases_children(e);
            lemma_expr_grows(b.left(), None, m);
            match spec_compile_expression(b.operands[0], None, m) {
                CompileStep::Done(m1) => {
                    lemma_expr_grows(b.right(), None, m1);
                },
                _ => {},
            }
        }
        },
        ExpressionModel::UnaryOperation(u) => {
            if u.operands.len() == 1 {
            proof_decreases_children(e);
            lemma_expr_grows(u.operand(), None, m);
        }
        },
    }
}

/// Compiling a statement never removes instructions.
proof fn lemma_stmt_grows(st: StatementModel, m: CompilerModel)
    ensures
        spec_compile_statement(st, m) matches CompileStep::Done(m2) ==> m2.bytecode.len()
            >= m.bytecode.len(),
{
    match st {
        StatementModel::LetStatement(l) => {
            lemma_expr_grows(l.expression, None, m);
        },
        StatementModel::Assignment(a) => {
            match a.operator {
                AssignmentOperator::Basic => {
                    match a.rhs {
                        ExpressionModel::Literal(_) => {},
                        ExpressionModel::Identifier(_) => {},
                        _ => {
                            lemma_expr_grows(a.rhs, Some(spec_lookup(m.variables, a.lhs.name)->0.value), m);
                        },
                    }
                },
                _ => {
                    lemma_expr_grows(a.rhs, None, m);
                },
            }
        },
        StatementModel::ReturnStatement(r) => {
            lemma_expr_grows(r.expression, None, m);
        },
        StatementModel::Expression(e) => {
            lemma_expr_grows(e, None, m);
        },
    }
}

/// Compiling a sequence of statements never removes instructions.
proof fn lemma_stmts_grow(ss: Seq<StatementModel>, m: CompilerModel)
    ensures
        spec_compile_statements(ss, m) matches CompileStep::Done(m2) ==> m2.bytecode.len()
            >= m.bytecode.len(),
    decreases ss.len(),
{
    if ss.len() > 0 {
        lemma_stmt_grows(ss[0], m);
        match spec_compile_statement(ss[0], m) {
            CompileStep::Done(m1) => {
                lemma_stmts_grow(ss.drop_first(), m1);
            },
            _ => {},
        }
    }
}


/// Compiling a statement leaves the operand stack as it was.
proof fn lemma_stmt_operands(st: StatementModel, m: CompilerModel)
    ensures
        spec_compile_statement(st, m) matches CompileStep::Done(m2) ==> m2.operands
            =~= m.operands,
{
    match st {
        StatementModel::LetStatement(l) => {
            lemma_expr_operands(l.expression, None, m);
        },
        StatementModel::Assignment(a) => {
            match a.operator {
                AssignmentOperator::Basic => {
                    match a.rhs {
                        ExpressionModel::Literal(_) => {},
                        ExpressionModel::Identifier(_) => {},
                        _ => {
                            lemma_expr_operands(
                                a.rhs,
                                Some(spec_lookup(m.variables, a.lhs.name)->0.value),
                                m,
                            );
                        },
                    }
                },
                _ => {
                    lemma_expr_operands(a.rhs, None, m);
                },
            }
        },
        StatementModel::ReturnStatement(r) => {
            lemma_expr_operands(r.expression, None, m);
        },
        StatementModel::Expression(e) => {
            lemma_expr_operands(e, None, m);
        },
    }
}

/// Compiling a statement sequence leaves the operand stack as it was.
proof fn lemma_stmts_operands(ss: Seq<StatementModel>, m: CompilerModel)
    ensures
        spec_compile_statements(ss, m) matches CompileStep::Done(m2) ==> m2.operands
            =~= m.operands,
    decreases ss.len(),
{
    if ss.len() > 0 {
        lemma_stmt_operands(ss[0], m);
        match spec_compile_statement(ss[0], m) {
            CompileStep::Done(m1) => {
                lemma_stmts_operands(ss.drop_first(), m1);
            },
            _ => {},
        }
    }
}

/// Compiling a control-flow unit leaves the operand stack as it was.
proof fn lemma_cf_operands(cf: ControlFlowModel, m: CompilerModel)
    ensures
        spec_compile_control_flow(cf, m) matches CompileStep::Done(m2) ==> m2.operands
            =~= m.operands,
{
    match cf {
        ControlFlowModel::BasicBlock(b) => {
            lemma_stmts_operands(b.statements, m);
        },
        ControlFlowModel::WhileLoop(w) => {
            lemma_expr_operands(w.condition, None, m);
            match spec_compile_expression(w.condition, None, m) {
                CompileStep::Done(m1) => {
                    match spec_materialise(m1) {
                        Some((m2, _)) => {
                            let m3 = CompilerModel {
                                bytecode: m2.bytecode.push(OpcodeModel::Error),
                                ..m2
                            };
                            lemma_stmts_operands(w.body.statements, m3);
                        },
                        None => {},
                    }
                },
                _ => {},
            }
        },
    }
}

/// Compiling a sequence of control-flow units leaves the operand stack
/// as it was.
proof fn lemma_units_operands(cfs: Seq<ControlFlowModel>, m: CompilerModel)
    ensures
        spec_compile_units(cfs, m) matches CompileStep::Done(m2) ==> m2.operands =~= m.operands,
    decreases cfs.len(),
{
    if cfs.len() > 0 {
        lemma_cf_operands(cfs[0], m);
        match spec_compile_control_flow(cfs[0], m) {
            CompileStep::Done(m1) => {
                lemma_units_operands(cfs.drop_first(), m1);
            },
            _ => {},
        }
    }
}

/// The opcode that loads literal `v` into register `dst`.
fn load_opcode(dst: u8, v: Value) -> (oc: Opcode)
    ensures
        oc@ == spec_load_op(dst, v@),
{
    match v {
        Value::Int(x) => Opcode::LoadInt(dst, x),
        Value::Float(x) => Opcode::LoadFloat(dst, x),
        Value::Bool(x) => Opcode::LoadBool(dst, x),
        Value::Str(x) => Opcode::LoadStr(dst, x),
        Value::Char(x) => Opcode::LoadChar(dst, x),
    }
}


/// The target of the jump at index `i`, after the interpreter's
/// post-instruction increment, lies inside `[0, code.len()]`.
pub open spec fn spec_jump_target_ok(code: Seq<OpcodeModel>, i: int) -> bool {
    match code[i] {
        OpcodeModel::Jump(off) => 0 <= i + 1 + off <= code.len(),
        OpcodeModel::JumpCond(_, off) => 0 <= i + 1 + off <= code.len(),
        _ => true,
    }
}

pub open spec fn spec_jumps_in_bounds(code: Seq<OpcodeModel>) -> bool {
    forall|i: int| 0 <= i < code.len() ==> #[trigger] spec_jump_target_ok(code, i)
}

/// No patch placeholder is left among the instructions.
pub open spec fn spec_no_placeholder(code: Seq<OpcodeModel>) -> bool {
    forall|i: int| 0 <= i < code.len() ==> !((#[trigger] code[i]) is Error)
}

/// What a compilation step does to the instruction vector: it appends,
/// every appended jump lands inside the final vector, and no appended
/// instruction is the patch placeholder.
pub open spec fn spec_appended_op_ok(code: Seq<OpcodeModel>, i: int) -> bool {
    spec_jump_target_ok(code, i) && !(code[i] is Error)
}

pub open spec fn spec_extends_with_ok_jumps(code1: Seq<OpcodeModel>, code2: Seq<OpcodeModel>) -> bool {
    &&& code2.len() >= code1.len()
    &&& (forall|i: int| 0 <= i < code1.len() ==> code2[i] == code1[i])
    &&& (forall|i: int|
        code1.len() <= i < code2.len() ==> #[trigger] spec_appended_op_ok(code2, i))
}


proof fn lemma_binary_opcode_not_jump(op: BinaryOperator, lt: DataType, rt: DataType, l: u8, r: u8, d: u8)
    ensures
        !(spec_binary_opcode(op, lt, rt, l, r, d) is Jump),
        !(spec_binary_opcode(op, lt, rt, l, r, d) is JumpCond),
        !(spec_binary_opcode(op, lt, rt, l, r, d) is Error),
{
}

proof fn lemma_unary_opcode_not_jump(op: UnaryOperator, t: DataType, s: u8, d: u8)
    ensures
        !(spec_unary_opcode(op, t, s, d) is Jump),
        !(spec_unary_opcode(op, t, s, d) is JumpCond),
        !(spec_unary_opcode(op, t, s, d) is Error),
{
}

proof fn lemma_load_op_not_jump(dst: u8, v: ValueModel)
    ensures
        !(spec_load_op(dst, v) is Jump),
        !(spec_load_op(dst, v) is JumpCond),
        !(spec_load_op(dst, v) is Error),
{
}

proof fn lemma_extends_trans(a: Seq<OpcodeModel>, b: Seq<OpcodeModel>, c: Seq<OpcodeModel>)
    requires
        spec_extends_with_ok_jumps(a, b),
        spec_extends_with_ok_jumps(b, c),
    ensures
        spec_extends_with_ok_jumps(a, c),
{
    assert forall|i: int| a.len() <= i < c.len() implies #[trigger] spec_appended_op_ok(c, i) by {
        if i < b.len() {
            assert(spec_appended_op_ok(b, i));
            assert(c[i] == b[i]);
        } else {
            assert(spec_appended_op_ok(c, i));
        }
    }
}

/// Materialising a pending literal appends a load, never a jump.
proof fn lemma_materialise_jumps(m: CompilerModel)
    ensures
        spec_materialise(m) matches Some((m2, _)) ==> spec_extends_with_ok_jumps(
            m.bytecode,
            m2.bytecode,
        ),
{
    match spec_materialise(m) {
        Some((m2, _)) => {
            assert forall|i: int| m.bytecode.len() <= i < m2.bytecode.len() implies #[trigger] spec_appended_op_ok(m2.bytecode, i) by {
                lemma_load_op_not_jump(m.free.last(), m.operands.last()->Value_0);
                assert(m2.bytecode[i] == spec_load_op(m.free.last(), m.operands.last()->Value_0));
            }
        },
        None => {},
    }
}

/// Compiling an expression appends loads and operation opcodes, never
/// a jump.
#[verifier::rlimit(100)]
proof fn lemma_expr_jumps(e: ExpressionModel, target: Option<u8>, m: CompilerModel)
    ensures
        spec_compile_expression(e, target, m) matches CompileStep::Done(m2)
            ==> spec_extends_with_ok_jumps(m.bytecode, m2.bytecode),
    decreases e,
{
    match e {
        ExpressionModel::Literal(_) => {},
        ExpressionModel::Identifier(_) => {},
        ExpressionModel::BinaryOperation(b) => {
            if b.operands.len() == 2 {
            proof_decreases_children(e);
            lemma_expr_jumps(b.left(), None, m);
            match spec_compile_expression(b.operands[0], None, m) {
                CompileStep::Done(m1) => {
                    lemma_expr_jumps(b.right(), None, m1);
                    match spec_compile_expression(b.right(), None, m1) {
                        CompileStep::Done(m2) => {
                            lemma_materialise_jumps(m2);
                            match spec_materialise(m2) {
                                Some((m3, right)) => {
                                    lemma_materialise_jumps(m3);
                                    match spec_materialise(m3) {
                                        Some((m4, left)) => {
                                            match spec_compile_expression(e, target, m) {
                                                CompileStep::Done(mz) => {
                                                    assert forall|i: int|
                                                        m4.bytecode.len() <= i < mz.bytecode.len()
                                                        implies #[trigger] spec_appended_op_ok(
                                                        mz.bytecode,
                                                        i,
                                                    ) by {
                                                        assert(i == m4.bytecode.len());
                                                        lemma_binary_opcode_not_jump(
                                                            b.operator,
                                                            left.data_type,
                                                            right.data_type,
                                                            left.value,
                                                            right.value,
                                                            mz.bytecode[i]->AddInt_2,
                                                        );
                                                        assert(!(mz.bytecode[i] is Jump)
                                                            && !(mz.bytecode[i] is JumpCond));
                                                    }
                                                    lemma_extends_trans(
                                                        m.bytecode,
                                                        m1.bytecode,
                                                        m2.bytecode,
                                                    );
                                                    lemma_extends_trans(
                                                        m.bytecode,
                                                        m2.bytecode,
                                                        m3.bytecode,
                                                    );
                                                    lemma_extends_trans(
                                                        m.bytecode,
                                                        m3.bytecode,
                                                        m4.bytecode,
                                                    );
                                                    lemma_extends_trans(
                                                        m.bytecode,
                                                        m4.bytecode,
                                                        mz.bytecode,
                                                    );
                                                },
                                                _ => {},
                                            }
                                        },
                                        None => {},
                                    }
                                },
                                None => {},
                            }
                        },
                        _ => {},
                    }
                },
                _ => {},
            }
        }
        },
        ExpressionModel::UnaryOperation(u) => {
            if u.operands.len() == 1 {
            proof_decreases_children(e);
            lemma_expr_jumps(u.operand(), None, m);
            match spec_compile_expression(u.operand(), None, m) {
                CompileStep::Done(m1) => {
                    lemma_materialise_jumps(m1);
                    match spec_materialise(m1) {
                        Some((m2, operand)) => {
                            match spec_compile_expression(e, target, m) {
                                CompileStep::Done(mz) => {
                                    assert forall|i: int|
                                        m2.bytecode.len() <= i < mz.bytecode.len() implies
                                        #[trigger] spec_appended_op_ok(mz.bytecode, i) by {
                                        assert(!(mz.bytecode[i] is Jump || mz.bytecode[i]
                                            is JumpCond));
                                    }
                                    lemma_extends_trans(m.bytecode, m1.bytecode, m2.bytecode);
                                    lemma_extends_trans(m.bytecode, m2.bytecode, mz.bytecode);
                                },
                                _ => {},
                            }
                        },
                        None => {},
                    }
                },
                _ => {},
            }
        }
        },
    }
}

/// Compiling a statement appends code whose jumps land in bounds.
proof fn lemma_let_jumps(l: LetStatementModel, m: CompilerModel)
    ensures
        spec_compile_let(l, m) matches CompileStep::Done(m2) ==> spec_extends_with_ok_jumps(
            m.bytecode,
            m2.bytecode,
        ),
{
    lemma_expr_jumps(l.expression, None, m);
    match spec_compile_expression(l.expression, None, m) {
        CompileStep::Done(m1) => {
            lemma_materialise_jumps(m1);
            match spec_materialise(m1) {
                Some((m2, _)) => {
                    match spec_compile_let(l, m) {
                        CompileStep::Done(mz) => {
                            assert forall|i: int|
                                m2.bytecode.len() <= i < mz.bytecode.len() implies
                                #[trigger] spec_appended_op_ok(mz.bytecode, i) by {
                                assert(!(mz.bytecode[i] is Jump || mz.bytecode[i] is JumpCond));
                            }
                            lemma_extends_trans(m.bytecode, m1.bytecode, m2.bytecode);
                            lemma_extends_trans(m.bytecode, m2.bytecode, mz.bytecode);
                        },
                        _ => {},
                    }
                },
                None => {},
            }
        },
        _ => {},
    }
}

#[verifier::rlimit(100)]
proof fn lemma_assign_jumps(a: AssignmentModel, m: CompilerModel)
    ensures
        spec_compile_assignment(a, m) matches CompileStep::Done(m2) ==> spec_extends_with_ok_jumps(
            m.bytecode,
            m2.bytecode,
        ),
{
    match a.operator {
        AssignmentOperator::Basic => {
            match a.rhs {
                ExpressionModel::Literal(lit) => {
                    match spec_compile_assignment(a, m) {
                        CompileStep::Done(mz) => {
                            assert forall|i: int|
                                m.bytecode.len() <= i < mz.bytecode.len() implies
                                #[trigger] spec_appended_op_ok(mz.bytecode, i) by {
                                lemma_load_op_not_jump(
                                    spec_lookup(m.variables, a.lhs.name)->0.value,
                                    lit.value,
                                );
                                assert(!(mz.bytecode[i] is Jump || mz.bytecode[i] is JumpCond));
                            }
                        },
                        _ => {},
                    }
                },
                ExpressionModel::Identifier(_) => {
                    match spec_compile_assignment(a, m) {
                        CompileStep::Done(mz) => {
                            assert forall|i: int|
                                m.bytecode.len() <= i < mz.bytecode.len() implies
                                #[trigger] spec_appended_op_ok(mz.bytecode, i) by {
                                assert(!(mz.bytecode[i] is Jump || mz.bytecode[i] is JumpCond));
                            }
                        },
                        _ => {},
                    }
                },
                _ => {
                    let t = Some(spec_lookup(m.variables, a.lhs.name)->0.value);
                    lemma_expr_jumps(a.rhs, t, m);
                    match spec_compile_expression(a.rhs, t, m) {
                        CompileStep::Done(m1) => {
                            lemma_materialise_jumps(m1);
                            match spec_materialise(m1) {
                                Some((m2, _)) => {
                                    lemma_extends_trans(m.bytecode, m1.bytecode, m2.bytecode);
                                },
                                None => {},
                            }
                        },
                        _ => {},
                    }
                },
            }
        },
        _ => {
            lemma_expr_jumps(a.rhs, None, m);
            match spec_compile_expression(a.rhs, None, m) {
                CompileStep::Done(m1) => {
                    lemma_materialise_jumps(m1);
                    match spec_materialise(m1) {
                        Some((m2, rhs_reg)) => {
                            match spec_compile_assignment(a, m) {
                                CompileStep::Done(mz) => {
                                    let lhs_reg = spec_lookup(m.variables, a.lhs.name)->0;
                                    assert forall|i: int|
                                        m2.bytecode.len() <= i < mz.bytecode.len() implies
                                        #[trigger] spec_appended_op_ok(mz.bytecode, i) by {
                                        lemma_binary_opcode_not_jump(
                                            spec_assignment_operator_binop(a.operator),
                                            lhs_reg.data_type,
                                            rhs_reg.data_type,
                                            lhs_reg.value,
                                            rhs_reg.value,
                                            lhs_reg.value,
                                        );
                                        assert(!(mz.bytecode[i] is Jump || mz.bytecode[i]
                                            is JumpCond));
                                    }
                                    lemma_extends_trans(m.bytecode, m1.bytecode, m2.bytecode);
                                    lemma_extends_trans(m.bytecode, m2.bytecode, mz.bytecode);
                                },
                                _ => {},
                            }
                        },
                        None => {},
                    }
                },
                _ => {},
            }
        },
    }
}

proof fn lemma_tail_stmt_jumps(st: StatementModel, m: CompilerModel)
    requires
        st is ReturnStatement || st is Expression,
    ensures
        spec_compile_statement(st, m) matches CompileStep::Done(m2)
            ==> spec_extends_with_ok_jumps(m.bytecode, m2.bytecode),
{
    let e = match st {
        StatementModel::ReturnStatement(r) => r.expression,
        StatementModel::Expression(e) => e,
        _ => arbitrary(),
    };
    lemma_expr_jumps(e, None, m);
    match spec_compile_expression(e, None, m) {
        CompileStep::Done(m1) => {
            lemma_materialise_jumps(m1);
            match spec_materialise(m1) {
                Some((m2, _)) => {
                    match spec_compile_statement(st, m) {
                        CompileStep::Done(mz) => {
                            assert forall|i: int|
                                m2.bytecode.len() <= i < mz.bytecode.len() implies
                                #[trigger] spec_appended_op_ok(mz.bytecode, i) by {
                                assert(!(mz.bytecode[i] is Jump || mz.bytecode[i] is JumpCond));
                            }
                            lemma_extends_trans(m.bytecode, m1.bytecode, m2.bytecode);
                            lemma_extends_trans(m.bytecode, m2.bytecode, mz.bytecode);
                        },
                        _ => {},
                    }
                },
                None => {},
            }
        },
        _ => {},
    }
}

/// Compiling a statement appends code whose jumps land in bounds.
proof fn lemma_stmt_jumps(st: StatementModel, m: CompilerModel)
    ensures
        spec_compile_statement(st, m) matches CompileStep::Done(m2)
            ==> spec_extends_with_ok_jumps(m.bytecode, m2.bytecode),
{
    match st {
        StatementModel::LetStatement(l) => {
            lemma_let_jumps(l, m);
        },
        StatementModel::Assignment(a) => {
            lemma_assign_jumps(a, m);
        },
        _ => {
            lemma_tail_stmt_jumps(st, m);
        },
    }
}

/// Compiling a statement sequence appends code whose jumps land in
/// bounds.
proof fn lemma_stmts_jumps(ss: Seq<StatementModel>, m: CompilerModel)
    ensures
        spec_compile_statements(ss, m) matches CompileStep::Done(m2)
            ==> spec_extends_with_ok_jumps(m.bytecode, m2.bytecode),
    decreases ss.len(),
{
    if ss.len() > 0 {
        lemma_stmt_jumps(ss[0], m);
        match spec_compile_statement(ss[0], m) {
            CompileStep::Done(m1) => {
                lemma_stmts_jumps(ss.drop_first(), m1);
                match spec_compile_statements(ss.drop_first(), m1) {
                    CompileStep::Done(m2) => {
                        lemma_extends_trans(m.bytecode, m1.bytecode, m2.bytecode);
                    },
                    _ => {},
                }
            },
            _ => {},
        }
    }
}

/// The while-loop lowering patches its placeholder into a conditional
/// jump past the loop's end and emits one backward jump to its start;
/// both land in bounds.
proof fn lemma_while_jumps(w: WhileLoopModel, m: CompilerModel)
    ensures
        spec_compile_while(w, m) matches CompileStep::Done(m2) ==> spec_extends_with_ok_jumps(
            m.bytecode,
            m2.bytecode,
        ),
{
    lemma_expr_jumps(w.condition, None, m);
    match spec_compile_expression(w.condition, None, m) {
        CompileStep::Done(m1) => {
            lemma_materialise_jumps(m1);
            match spec_materialise(m1) {
                Some((m2, cond)) => {
                    if cond.data_type == DataType::Bool {
                        let jidx = m2.bytecode.len() as int;
                        let m3 = CompilerModel {
                            bytecode: m2.bytecode.push(OpcodeModel::Error),
                            ..m2
                        };
                        lemma_stmts_jumps(w.body.statements, m3);
                        match spec_compile_statements(w.body.statements, m3) {
                            CompileStep::Done(m4) => {
                                match spec_compile_while(w, m) {
                                    CompileStep::Done(mz) => {
                                        lemma_extends_trans(m.bytecode, m1.bytecode, m2.bytecode);
                                        let start = m.bytecode.len() as int;
                                        let back = m4.bytecode.len() - start + 1;
                                        let m5 = CompilerModel {
                                            bytecode: m4.bytecode.push(
                                                OpcodeModel::Jump((-back) as i16),
                                            ),
                                            ..m4
                                        };
                                        let fwd = m5.bytecode.len() - jidx - 1;
                                        assert(mz.bytecode == m5.bytecode.update(
                                            jidx,
                                            OpcodeModel::JumpCond(cond.value, fwd as i16),
                                        ));
                                        assert(spec_extends_with_ok_jumps(m.bytecode, m2.bytecode));
                                        assert(spec_extends_with_ok_jumps(m3.bytecode, m4.bytecode));
                                        assert(mz.bytecode.len() == m5.bytecode.len()
                                            == m4.bytecode.len() + 1);
                                        // the patched conditional jump lands one past the end
                                        assert(spec_jump_target_ok(mz.bytecode, jidx));
                                        // the backward jump lands on the condition's start
                                        assert(mz.bytecode[m4.bytecode.len() as int]
                                            == OpcodeModel::Jump((-back) as i16));
                                        assert(spec_jump_target_ok(
                                            mz.bytecode,
                                            m4.bytecode.len() as int,
                                        ));
                                        assert forall|i: int|
                                            m.bytecode.len() <= i < mz.bytecode.len() implies
                                            #[trigger] spec_appended_op_ok(mz.bytecode, i) by {
                                            if i < m2.bytecode.len() {
                                                assert(spec_appended_op_ok(m2.bytecode, i));
                                                assert(mz.bytecode[i] == m2.bytecode[i]);
                                            } else if i == jidx {
                                            } else if m3.bytecode.len() <= i < m4.bytecode.len() {
                                                assert(spec_appended_op_ok(m4.bytecode, i));
                                                assert(mz.bytecode[i] == m4.bytecode[i]);
                                            } else {
                                            }
                                        }
                                    },
                                    _ => {},
                                }
                            },
                            _ => {},
                        }
                    }
                },
                None => {},
            }
        },
        _ => {},
    }
}

/// Compiling a sequence of control-flow units appends code whose jumps
/// land in bounds.
proof fn lemma_units_jumps(cfs: Seq<ControlFlowModel>, m: CompilerModel)
    ensures
        spec_compile_units(cfs, m) matches CompileStep::Done(m2) ==> spec_extends_with_ok_jumps(
            m.bytecode,
            m2.bytecode,
        ),
    decreases cfs.len(),
{
    if cfs.len() > 0 {
        match cfs[0] {
            ControlFlowModel::BasicBlock(b) => {
                lemma_stmts_jumps(b.statements, m);
            },
            ControlFlowModel::WhileLoop(w) => {
                lemma_while_jumps(w, m);
            },
        }
        match spec_compile_control_flow(cfs[0], m) {
            CompileStep::Done(m1) => {
                lemma_units_jumps(cfs.drop_first(), m1);
                match spec_compile_units(cfs.drop_first(), m1) {
                    CompileStep::Done(m2) => {
                        lemma_extends_trans(m.bytecode, m1.bytecode, m2.bytecode);
                    },
                    _ => {},
                }
            },
            _ => {},
        }
    }
}

/// LAW: every jump a successful compilation emits satisfies
/// `0 <= index + 1 + offset <= instruction count` — it lands on an
/// instruction or one past the last, counting the interpreter's
/// post-instruction increment — and the patch placeholder never
/// survives compilation.
pub proof fn lemma_compiled_jumps_in_bounds(
    body: FunctionBodyModel,
    source: Seq<char>,
    filename: Seq<char>,
)
    ensures
        spec_compile_body(body, source, filename) matches CompileStep::Done(m)
            ==> spec_jumps_in_bounds(m.bytecode) && spec_no_placeholder(m.bytecode),
{
    let m0 = CompilerModel { filename, source_code: source, ..spec_fresh_compiler() };
    lemma_units_jumps(body.control_flow_structures, m0);
    match spec_compile_units(body.control_flow_structures, m0) {
        CompileStep::Done(m) => {
            assert forall|i: int| 0 <= i < m.bytecode.len() implies #[trigger] spec_jump_target_ok(
                m.bytecode,
                i,
            ) by {
                assert(spec_appended_op_ok(m.bytecode, i));
            }
            assert forall|i: int| 0 <= i < m.bytecode.len() implies !((#[trigger] m.bytecode[i])
                is Error) by {
                assert(spec_appended_op_ok(m.bytecode, i));
            }
        },
        _ => {},
    }
}


/// The register indices owned by variables, in binding order.
pub open spec fn spec_var_regs(vars: Seq<(Seq<char>, Register)>) -> Seq<u8> {
    vars.map_values(|p: (Seq<char>, Register)| p.1.value)
}

/// The register indices owned by temporaries pending on the operand
/// stack.
pub open spec fn spec_temp_regs(ops: Seq<OperandModel>) -> Seq<u8>
    decreases ops.len(),
{
    if ops.len() == 0 {
        Seq::<u8>::empty()
    } else {
        let rest = spec_temp_regs(ops.drop_last());
        match ops.last() {
            OperandModel::Register(r) => if r.is_temporary {
                rest.push(r.value)
            } else {
                rest
            },
            _ => rest,
        }
    }
}

/// Every register index, counted once for each owner: the free list,
/// the variable bindings, and the pending temporaries.
#[verifier::opaque]
pub open spec fn spec_occupied(m: CompilerModel) -> Multiset<u8> {
    m.free.to_multiset().add(spec_var_regs(m.variables).to_multiset()).add(
        spec_temp_regs(m.operands).to_multiset(),
    )
}

/// The allocation discipline: every register index has exactly one
/// owner.
pub open spec fn spec_regs_partition(m: CompilerModel) -> bool {
    forall|x: u8| spec_occupied(m).count(x) == 1
}

proof fn lemma_initial_free_counts()
    ensures
        forall|x: u8| #[trigger] spec_initial_free().to_multiset().count(x) == 1,
{
    broadcast use vstd::seq_lib::group_to_multiset_ensures;

    let s = spec_initial_free();
    assert(s.no_duplicates());
    s.lemma_multiset_has_no_duplicates();
    assert forall|x: u8| #[trigger] s.to_multiset().count(x) == 1 by {
        assert(s[255 - x] == x);
        assert(s.contains(x));
    }
}

/// A fresh compiler's registers are all free, each owned once.
proof fn lemma_fresh_partition(m: CompilerModel)
    requires
        m.free == spec_initial_free(),
        m.variables.len() == 0,
        m.operands.len() == 0,
    ensures
        spec_regs_partition(m),
{
    broadcast use vstd::seq_lib::group_to_multiset_ensures;
    broadcast use vstd::multiset::group_multiset_axioms;

    reveal(spec_occupied);
    lemma_initial_free_counts();
    assert(spec_var_regs(m.variables) =~= Seq::<u8>::empty());
    assert(spec_temp_regs(m.operands) =~= Seq::<u8>::empty());
}

/// Popping the last element of a sequence removes one occurrence from
/// its multiset.
proof fn lemma_drop_last_multiset(s: Seq<u8>)
    requires
        s.len() > 0,
    ensures
        forall|x: u8| #[trigger] s.drop_last().to_multiset().count(x) + (if x == s.last() {
            1int
        } else {
            0int
        }) == s.to_multiset().count(x),
{
    broadcast use vstd::seq_lib::group_to_multiset_ensures;

    assert(s.drop_last().push(s.last()) =~= s);
    assert forall|x: u8|
        #[trigger] s.drop_last().to_multiset().count(x) + (if x == s.last() {
            1int
        } else {
            0int
        }) == s.to_multiset().count(x) by {
        assert(s.to_multiset() == s.drop_last().push(s.last()).to_multiset());
    }
}

/// Variable bindings own their registers permanently: none is marked
/// temporary.
pub open spec fn spec_vars_nontemp(vars: Seq<(Seq<char>, Register)>) -> bool {
    forall|i: int| 0 <= i < vars.len() ==> !(#[trigger] vars[i]).1.is_temporary
}

proof fn lemma_lookup_nontemp(vars: Seq<(Seq<char>, Register)>, name: Seq<char>)
    requires
        spec_vars_nontemp(vars),
    ensures
        spec_lookup(vars, name) matches Some(r) ==> !r.is_temporary,
    decreases vars.len(),
{
    if vars.len() > 0 && vars[0].0 != name {
        lemma_lookup_nontemp(vars.drop_first(), name);
    }
}

/// The registers owned by the free list and the pending temporaries;
/// variable bindings are outside this pool and expressions never touch
/// them.
pub open spec fn spec_pool(m: CompilerModel) -> Multiset<u8> {
    m.free.to_multiset().add(spec_temp_regs(m.operands).to_multiset())
}

/// Materialising the top operand takes at most one register out of the
/// pool: the one it returns, when that one is a temporary.
proof fn lemma_materialise_pool(m: CompilerModel)
    requires
        m.operands.len() > 0,
    ensures
        spec_materialise(m) matches Some((m2, reg)) ==> {
            &&& m2.variables == m.variables
            &&& forall|x: u8|
                #[trigger] spec_pool(m2).count(x) + (if reg.is_temporary && x == reg.value {
                    1int
                } else {
                    0int
                }) == spec_pool(m).count(x)
        },
{
    broadcast use vstd::seq_lib::group_to_multiset_ensures;
    broadcast use vstd::multiset::group_multiset_axioms;

    match spec_materialise(m) {
        Some((m2, reg)) => {
            match m.operands.last() {
                OperandModel::Register(r) => {
                    assert(m2.operands == m.operands.drop_last());
                    assert(spec_temp_regs(m.operands) == if r.is_temporary {
                        spec_temp_regs(m2.operands).push(r.value)
                    } else {
                        spec_temp_regs(m2.operands)
                    });
                },
                OperandModel::Value(_) => {
                    assert(m2.operands == m.operands.drop_last());
                    assert(spec_temp_regs(m.operands) == spec_temp_regs(m2.operands));
                    lemma_drop_last_multiset(m.free);
                },
            }
        },
        None => {},
    }
}

/// Compiling an expression with no explicit target conserves the pool;
/// with an explicit target it adds one claim on the target's index,
/// which the caller takes back off the operand stack. Variable
/// bindings are untouched either way.
#[verifier::rlimit(100)]
proof fn lemma_expr_pool(e: ExpressionModel, target: Option<u8>, m: CompilerModel)
    requires
        spec_vars_nontemp(m.variables),
        forall|x: u8| #[trigger] spec_pool(m).count(x) <= 1,
        target matches Some(d) ==> spec_pool(m).count(d) == 0,
        target is Some ==> e is BinaryOperation || e is UnaryOperation,
    ensures
        spec_compile_expression(e, target, m) matches CompileStep::Done(m2) ==> {
            &&& m2.variables == m.variables
            &&& forall|x: u8|
                #[trigger] spec_pool(m2).count(x) == spec_pool(m).count(x) + (match target {
                    Some(d) => if x == d {
                        1int
                    } else {
                        0int
                    },
                    None => 0int,
                })
        },
    decreases e,
{
    broadcast use vstd::seq_lib::group_to_multiset_ensures;
    broadcast use vstd::multiset::group_multiset_axioms;

    match e {
        ExpressionModel::Literal(l) => {
            match spec_compile_expression(e, target, m) {
                CompileStep::Done(m2) => {
                    assert(m2.operands.drop_last() =~= m.operands);
                    assert(spec_temp_regs(m2.operands) == spec_temp_regs(m.operands));
                },
                _ => {},
            }
        },
        ExpressionModel::Identifier(ident) => {
            lemma_lookup_nontemp(m.variables, ident.name);
            match spec_compile_expression(e, target, m) {
                CompileStep::Done(m2) => {
                    assert(m2.operands.drop_last() =~= m.operands);
                    assert(spec_temp_regs(m2.operands) == spec_temp_regs(m.operands));
                },
                _ => {},
            }
        },
        ExpressionModel::BinaryOperation(b) => {
            if b.operands.len() == 2 {
            proof_decreases_children(e);
            lemma_expr_pool(b.left(), None, m);
            match spec_compile_expression(b.operands[0], None, m) {
                CompileStep::Done(m1) => {
                    lemma_expr_pool(b.right(), None, m1);
                    match spec_compile_expression(b.right(), None, m1) {
                        CompileStep::Done(mm) => {
                            lemma_expr_operands(b.operands[0], None, m);
                            lemma_expr_operands(b.right(), None, m1);
                            lemma_materialise_pool(mm);
                            match spec_materialise(mm) {
                                Some((m3, right)) => {
                                    lemma_materialise_pool(m3);
                                    match spec_materialise(m3) {
                                        Some((m4, left)) => {
                                            lemma_emit_binary_pool(
                                                b, target, m, mm, m3, m4, left, right,
                                            );
                                            assert(spec_compile_expression(e, target, m)
                                                == spec_emit_binary(b, target, mm));
                                            match spec_emit_binary(b, target, mm) {
                                                CompileStep::Done(mz) => {
                                                    assert(mz.variables == m.variables);
                                                    assert(forall|x: u8|
                                                        #[trigger] spec_pool(mz).count(x)
                                                        == spec_pool(m).count(x) + (match target {
                                                        Some(d) => if x == d {
                                                            1int
                                                        } else {
                                                            0int
                                                        },
                                                        None => 0int,
                                                    }));
                                                },
                                                _ => {},
                                            }
                                        },
                                        None => {},
                                    }
                                },
                                None => {},
                            }
                        },
                        _ => {},
                    }
                },
                _ => {},
            }
        }
        },
        ExpressionModel::UnaryOperation(u) => {
            if u.operands.len() == 1 {
            proof_decreases_children(e);
            lemma_expr_pool(u.operand(), None, m);
            match spec_compile_expression(u.operand(), None, m) {
                CompileStep::Done(m1) => {
                    lemma_expr_operands(u.operands[0], None, m);
                    lemma_materialise_pool(m1);
                    match spec_materialise(m1) {
                        Some((m2, operand)) => {
                            match spec_unary_rule(u.operator, operand.data_type) {
                                Some(result_type) => {
                                    match spec_choose_destination(target, operand, None, m2) {
                                        Some((m5, d)) => {
                                            if target is None && !operand.is_temporary {
                                                lemma_drop_last_multiset(m2.free);
                                                assert(forall|x: u8|
                                                    #[trigger] spec_pool(m5).count(x) + (if x == d {
                                                        1int
                                                    } else {
                                                        0int
                                                    }) == spec_pool(m2).count(x));
                                            } else {
                                                assert(m5 == m2);
                                            }
                                            if operand.is_temporary {
                                                assert(spec_pool(m2).count(operand.value) + 1
                                                    == spec_pool(m1).count(operand.value));
                                            }
                                            match target {
                                                Some(dd) => {
                                                    assert(spec_pool(m1).count(dd) == 0);
                                                    if operand.is_temporary {
                                                        assert(operand.value != dd);
                                                    }
                                                },
                                                None => {},
                                            }
                                            match spec_compile_expression(e, target, m) {
                                                CompileStep::Done(mz) => {
                                                    let pushed = m5.operands.push(
                                                        OperandModel::Register(
                                                            Register {
                                                                value: d,
                                                                data_type: result_type,
                                                                is_temporary: true,
                                                            },
                                                        ),
                                                    );
                                                    assert(spec_temp_regs(pushed)
                                                        == spec_temp_regs(m5.operands).push(d)) by {
                                                        assert(pushed.drop_last() == m5.operands);
                                                    }
                                                    assert forall|x: u8|
                                                        #[trigger] spec_pool(mz).count(x)
                                                        == spec_pool(m).count(x) + (match target {
                                                        Some(dd) => if x == dd {
                                                            1int
                                                        } else {
                                                            0int
                                                        },
                                                        None => 0int,
                                                    }) by {
                                                        assert(spec_pool(m1).count(x)
                                                            == spec_pool(m).count(x));
                                                        assert(spec_pool(m2).count(x) + (
                                                        if operand.is_temporary && x
                                                            == operand.value {
                                                            1int
                                                        } else {
                                                            0int
                                                        }) == spec_pool(m1).count(x));
                                                    }
                                                },
                                                _ => {},
                                            }
                                        },
                                        None => {},
                                    }
                                },
                                None => {},
                            }
                        },
                        None => {},
                    }
                },
                _ => {},
            }
            match spec_compile_expression(e, target, m) {
                CompileStep::Done(mfin) => {
                    assert(mfin.variables == m.variables);
                    assert(forall|x: u8|
                        #[trigger] spec_pool(mfin).count(x) == spec_pool(m).count(x) + (
                        match target {
                            Some(d) => if x == d {
                                1int
                            } else {
                                0int
                            },
                            None => 0int,
                        }));
                },
                _ => {},
            }
        }
        },
    }
}

/// The pool bookkeeping of emitting one binary opcode over the two
/// pending operands on top of the stack.
#[verifier::rlimit(100)]
proof fn lemma_emit_binary_pool(
    b: BinaryOperationModel,
    target: Option<u8>,
    m: CompilerModel,
    mm: CompilerModel,
    m3: CompilerModel,
    m4: CompilerModel,
    left: Register,
    right: Register,
)
    requires
        forall|x: u8| #[trigger] spec_pool(m).count(x) <= 1,
        target matches Some(d) ==> spec_pool(m).count(d) == 0,
        forall|x: u8| #[trigger] spec_pool(mm).count(x) == spec_pool(m).count(x),
        mm.variables == m.variables,
        spec_vars_nontemp(m.variables),
        spec_materialise(mm) == Some((m3, right)),
        spec_materialise(m3) == Some((m4, left)),
        m3.variables == mm.variables,
        m4.variables == m3.variables,
        forall|x: u8|
            #[trigger] spec_pool(m3).count(x) + (if right.is_temporary && x == right.value {
                1int
            } else {
                0int
            }) == spec_pool(mm).count(x),
        forall|x: u8|
            #[trigger] spec_pool(m4).count(x) + (if left.is_temporary && x == left.value {
                1int
            } else {
                0int
            }) == spec_pool(m3).count(x),
    ensures
        spec_emit_binary(b, target, mm) matches CompileStep::Done(mz) ==> {
            &&& mz.variables == m.variables
            &&& forall|x: u8|
                #[trigger] spec_pool(mz).count(x) == spec_pool(m).count(x) + (match target {
                    Some(d) => if x == d {
                        1int
                    } else {
                        0int
                    },
                    None => 0int,
                })
        },
{
    broadcast use vstd::seq_lib::group_to_multiset_ensures;
    broadcast use vstd::multiset::group_multiset_axioms;

    match spec_binary_rule(b.operator, left.data_type, right.data_type) {
        Some(result_type) => {
            match spec_choose_destination(target, left, Some(right), m4) {
                Some((m5, d)) => {
                    if target is None && !right.is_temporary && !left.is_temporary {
                        lemma_drop_last_multiset(m4.free);
                        assert(d == m4.free.last());
                        assert(forall|x: u8|
                            #[trigger] spec_pool(m5).count(x) + (if x == d {
                                1int
                            } else {
                                0int
                            }) == spec_pool(m4).count(x));
                    } else {
                        assert(m5 == m4);
                    }
                    if left.is_temporary {
                        assert(spec_pool(m4).count(left.value) + 1 == spec_pool(m3).count(
                            left.value,
                        ));
                        assert(spec_pool(m3).count(left.value) >= 1);
                    }
                    if right.is_temporary {
                        assert(spec_pool(m3).count(right.value) + 1 == spec_pool(mm).count(
                            right.value,
                        ));
                        assert(spec_pool(mm).count(right.value) >= 1);
                    }
                    match target {
                        Some(dd) => {
                            assert(spec_pool(mm).count(dd) == 0);
                            assert(spec_pool(m3).count(dd) == 0);
                            if right.is_temporary {
                                assert(right.value != dd);
                            }
                            if left.is_temporary {
                                assert(spec_pool(m3).count(left.value) >= 1);
                                assert(left.value != dd);
                            }
                        },
                        None => {},
                    }
                    match spec_emit_binary(b, target, mm) {
                        CompileStep::Done(mz) => {
                            let pushed = m5.operands.push(OperandModel::Register(
                                Register { value: d, data_type: result_type, is_temporary: true },
                            ));
                            assert(spec_temp_regs(pushed) == spec_temp_regs(m5.operands).push(d))
                                by {
                                assert(pushed.drop_last() == m5.operands);
                            }
                            assert forall|x: u8|
                                #[trigger] spec_pool(mz).count(x) == spec_pool(m).count(x) + (
                                match target {
                                    Some(dd) => if x == dd {
                                        1int
                                    } else {
                                        0int
                                    },
                                    None => 0int,
                                }) by {
                                assert(spec_pool(mm).count(x) == spec_pool(m).count(x));
                                assert(spec_pool(m3).count(x) + (if right.is_temporary && x
                                    == right.value {
                                    1int
                                } else {
                                    0int
                                }) == spec_pool(mm).count(x));
                                assert(spec_pool(m4).count(x) + (if left.is_temporary && x
                                    == left.value {
                                    1int
                                } else {
                                    0int
                                }) == spec_pool(m3).count(x));
                                assert(spec_pool(m5).count(x) + (if target is None
                                    && !right.is_temporary && !left.is_temporary && x == d {
                                    1int
                                } else {
                                    0int
                                }) == spec_pool(m4).count(x));
                            }
                        },
                        _ => {},
                    }
                },
                None => {},
            }
        },
        None => {},
    }
}


proof fn lemma_lookup_none_means(vars: Seq<(Seq<char>, Register)>, name: Seq<char>)
    requires
        spec_lookup(vars, name) is None,
    ensures
        forall|k: int| 0 <= k < vars.len() ==> vars[k].0 != name,
    decreases vars.len(),
{
    if vars.len() > 0 {
        lemma_lookup_none_means(vars.drop_first(), name);
        assert forall|k: int| 0 <= k < vars.len() implies vars[k].0 != name by {
            if k > 0 {
                assert(vars.drop_first()[k - 1] == vars[k]);
            }
        }
    }
}

proof fn lemma_lookup_var_reg(vars: Seq<(Seq<char>, Register)>, name: Seq<char>)
    ensures
        spec_lookup(vars, name) matches Some(r) ==> spec_var_regs(vars).contains(r.value),
    decreases vars.len(),
{
    if vars.len() > 0 {
        if vars[0].0 == name {
            assert(spec_var_regs(vars)[0] == vars[0].1.value);
        } else {
            lemma_lookup_var_reg(vars.drop_first(), name);
            match spec_lookup(vars, name) {
                Some(r) => {
                    let i = choose|i: int|
                        0 <= i < vars.drop_first().len() && spec_var_regs(vars.drop_first())[i]
                            == r.value;
                    assert(spec_var_regs(vars)[i + 1] == r.value);
                },
                None => {},
            }
        }
    }
}

/// Under the partition discipline, a bound variable's register is not
/// in the pool.
proof fn lemma_var_not_in_pool(m: CompilerModel, name: Seq<char>)
    requires
        spec_regs_partition(m),
    ensures
        spec_lookup(m.variables, name) matches Some(r) ==> spec_pool(m).count(r.value) == 0,
{
    broadcast use vstd::seq_lib::group_to_multiset_ensures;
    broadcast use vstd::multiset::group_multiset_axioms;

    reveal(spec_occupied);
    lemma_lookup_var_reg(m.variables, name);
    match spec_lookup(m.variables, name) {
        Some(r) => {
            assert(spec_var_regs(m.variables).to_multiset().count(r.value) > 0);
            assert(spec_occupied(m).count(r.value) == 1);
        },
        None => {},
    }
}

proof fn lemma_partition_pool_bound(m: CompilerModel)
    requires
        spec_regs_partition(m),
    ensures
        forall|x: u8| #[trigger] spec_pool(m).count(x) <= 1,
{
    broadcast use vstd::multiset::group_multiset_axioms;

    assert forall|x: u8| #[trigger] spec_pool(m).count(x) <= 1 by {
        reveal(spec_occupied);
        assert(spec_occupied(m).count(x) == 1);
    }
}

/// Compiling one statement preserves the ownership partition; a `let`
/// of an unbound name appends one binding, any other statement leaves
/// the bindings as they were.
#[verifier::rlimit(100)]
proof fn lemma_let_partition(l: LetStatementModel, m: CompilerModel)
    requires
        spec_regs_partition(m),
        spec_vars_nontemp(m.variables),
        spec_lookup(m.variables, l.identifier.name) is None,
    ensures
        spec_compile_let(l, m) matches CompileStep::Done(m2) ==> {
            &&& spec_regs_partition(m2)
            &&& spec_vars_nontemp(m2.variables)
            &&& m2.variables.len() == m.variables.len() + 1
            &&& m2.variables.drop_last() == m.variables
            &&& m2.variables.last().0 == l.identifier.name
        },
{
    broadcast use vstd::seq_lib::group_to_multiset_ensures;
    broadcast use vstd::multiset::group_multiset_axioms;

    lemma_partition_pool_bound(m);
    {
        {
            if !spec_is_keyword(l.identifier.name) {
                lemma_expr_pool(l.expression, None, m);
                lemma_expr_operands(l.expression, None, m);
                match spec_compile_expression(l.expression, None, m) {
                    CompileStep::Done(m1) => {
                        lemma_materialise_pool(m1);
                        match spec_materialise(m1) {
                            Some((mp, reg)) => {
                                lemma_lookup_none_means(m.variables, l.identifier.name);
                                if reg.is_temporary {
                                    lemma_insert_appends(
                                        mp.variables,
                                        l.identifier.name,
                                        Register {
                                            value: reg.value,
                                            data_type: reg.data_type,
                                            is_temporary: false,
                                        },
                                    );
                                } else {
                                    if mp.free.len() > 0 {
                                        lemma_insert_appends(
                                            mp.variables,
                                            l.identifier.name,
                                            Register {
                                                value: mp.free.last(),
                                                data_type: reg.data_type,
                                                is_temporary: false,
                                            },
                                        );
                                        lemma_drop_last_multiset(mp.free);
                                    }
                                }
                                match spec_compile_let(l, m) {
                                    CompileStep::Done(m2) => {
                                        assert(spec_var_regs(m2.variables) =~= spec_var_regs(
                                            mp.variables,
                                        ).push(m2.variables.last().1.value));
                                        assert forall|x: u8|
                                            #[trigger] spec_occupied(m2).count(x) == 1 by {
                                            reveal(spec_occupied);
                                            assert(spec_pool(m1).count(x) == spec_pool(m).count(
                                                x,
                                            ));
                                            assert(spec_pool(mp).count(x) + (
                                            if reg.is_temporary && x == reg.value {
                                                1int
                                            } else {
                                                0int
                                            }) == spec_pool(m1).count(x));
                                            assert(spec_occupied(m).count(x) == 1);
                                        }
                                        assert(spec_regs_partition(m2));
                                    },
                                    _ => {},
                                }
                            },
                            None => {},
                        }
                    },
                    _ => {},
                }
            }
        }
    }
}

#[verifier::rlimit(100)]
proof fn lemma_stmt_partition(st: StatementModel, m: CompilerModel)
    requires
        spec_regs_partition(m),
        spec_vars_nontemp(m.variables),
        st matches StatementModel::LetStatement(l) ==> spec_lookup(m.variables, l.identifier.name)
            is None,
    ensures
        spec_compile_statement(st, m) matches CompileStep::Done(m2) ==> {
            &&& spec_regs_partition(m2)
            &&& spec_vars_nontemp(m2.variables)
            &&& match st {
                StatementModel::LetStatement(l) => m2.variables.len() == m.variables.len() + 1
                    && m2.variables.drop_last() == m.variables && m2.variables.last().0
                    == l.identifier.name,
                _ => m2.variables == m.variables,
            }
        },
{
    broadcast use vstd::seq_lib::group_to_multiset_ensures;
    broadcast use vstd::multiset::group_multiset_axioms;

    lemma_partition_pool_bound(m);
    match st {
        StatementModel::LetStatement(l) => {
            lemma_let_partition(l, m);
            match spec_compile_let(l, m) {
                CompileStep::Done(m2) => {
                    assert(spec_compile_statement(st, m) == CompileStep::Done(m2));
                    assert(spec_regs_partition(m2));
                    assert(spec_vars_nontemp(m2.variables));
                },
                other => {
                    assert(spec_compile_statement(st, m) == other);
                },
            }
        },
        StatementModel::Assignment(a) => {
            lemma_var_not_in_pool(m, a.lhs.name);
            match spec_lookup(m.variables, a.lhs.name) {
                Some(lhs_reg) => {
                    match a.operator {
                        AssignmentOperator::Basic => {
                            match a.rhs {
                                ExpressionModel::Literal(_) => {
                                    match spec_compile_statement(st, m) {
                                        CompileStep::Done(m2) => {
                                            assert forall|x: u8|
                                                #[trigger] spec_occupied(m2).count(x) == 1 by {
                                                reveal(spec_occupied);
                                                assert(spec_occupied(m).count(x) == 1);
                                            }
                                        },
                                        _ => {},
                                    }
                                },
                                ExpressionModel::Identifier(_) => {
                                    match spec_compile_statement(st, m) {
                                        CompileStep::Done(m2) => {
                                            assert forall|x: u8|
                                                #[trigger] spec_occupied(m2).count(x) == 1 by {
                                                reveal(spec_occupied);
                                                assert(spec_occupied(m).count(x) == 1);
                                            }
                                        },
                                        _ => {},
                                    }
                                },
                                _ => {
                                    lemma_expr_pool(a.rhs, Some(lhs_reg.value), m);
                                    lemma_expr_operands(a.rhs, Some(lhs_reg.value), m);
                                    match spec_compile_expression(
                                        a.rhs,
                                        Some(lhs_reg.value),
                                        m,
                                    ) {
                                        CompileStep::Done(m1) => {
                                            lemma_materialise_pool(m1);
                                            match spec_materialise(m1) {
                                                Some((mp, res_reg)) => {
                                                    assert forall|x: u8|
                                                        #[trigger] spec_occupied(mp).count(x)
                                                        == 1 by {
                                                        reveal(spec_occupied);
                                                        assert(spec_pool(m1).count(x)
                                                            == spec_pool(m).count(x) + (
                                                        if x == lhs_reg.value {
                                                            1int
                                                        } else {
                                                            0int
                                                        }));
                                                        assert(spec_pool(mp).count(x) + (
                                                        if res_reg.is_temporary && x
                                                            == res_reg.value {
                                                            1int
                                                        } else {
                                                            0int
                                                        }) == spec_pool(m1).count(x));
                                                        assert(spec_occupied(m).count(x) == 1);
                                                    }
                                                },
                                                None => {},
                                            }
                                        },
                                        _ => {},
                                    }
                                },
                            }
                        },
                        _ => {
                            lemma_expr_pool(a.rhs, None, m);
                            lemma_expr_operands(a.rhs, None, m);
                            match spec_compile_expression(a.rhs, None, m) {
                                CompileStep::Done(m1) => {
                                    lemma_materialise_pool(m1);
                                    match spec_materialise(m1) {
                                        Some((mp, rhs_reg)) => {
                                            if rhs_reg.is_temporary {
                                                assert(spec_pool(mp).count(rhs_reg.value) + 1
                                                    == spec_pool(m1).count(rhs_reg.value));
                                                assert(rhs_reg.value != lhs_reg.value);
                                            }
                                            match spec_compile_statement(st, m) {
                                                CompileStep::Done(m2) => {
                                                    assert forall|x: u8|
                                                        #[trigger] spec_occupied(m2).count(x)
                                                        == 1 by {
                                                        reveal(spec_occupied);
                                                        assert(spec_pool(m1).count(x)
                                                            == spec_pool(m).count(x));
                                                        assert(spec_pool(mp).count(x) + (
                                                        if rhs_reg.is_temporary && x
                                                            == rhs_reg.value {
                                                            1int
                                                        } else {
                                                            0int
                                                        }) == spec_pool(m1).count(x));
                                                        assert(spec_occupied(m).count(x) == 1);
                                                    }
                                                },
                                                _ => {},
                                            }
                                        },
                                        None => {},
                                    }
                                },
                                _ => {},
                            }
                        },
                    }
                },
                None => {},
            }
        },
        StatementModel::ReturnStatement(r) => {
            lemma_expr_pool(r.expression, None, m);
            lemma_expr_operands(r.expression, None, m);
            match spec_compile_expression(r.expression, None, m) {
                CompileStep::Done(m1) => {
                    lemma_materialise_pool(m1);
                    match spec_materialise(m1) {
                        Some((mp, reg)) => {
                            match spec_compile_statement(st, m) {
                                CompileStep::Done(m2) => {
                                    assert forall|x: u8|
                                        #[trigger] spec_occupied(m2).count(x) == 1 by {
                                        reveal(spec_occupied);
                                        assert(spec_pool(m1).count(x) == spec_pool(m).count(x));
                                        assert(spec_pool(mp).count(x) + (
                                        if reg.is_temporary && x == reg.value {
                                            1int
                                        } else {
                                            0int
                                        }) == spec_pool(m1).count(x));
                                        assert(spec_occupied(m).count(x) == 1);
                                    }
                                },
                                _ => {},
                            }
                        },
                        None => {},
                    }
                },
                _ => {},
            }
        },
        StatementModel::Expression(e) => {
            lemma_expr_pool(e, None, m);
            lemma_expr_operands(e, None, m);
            match spec_compile_expression(e, None, m) {
                CompileStep::Done(m1) => {
                    lemma_materialise_pool(m1);
                    match spec_materialise(m1) {
                        Some((mp, reg)) => {
                            match spec_compile_statement(st, m) {
                                CompileStep::Done(m2) => {
                                    assert forall|x: u8|
                                        #[trigger] spec_occupied(m2).count(x) == 1 by {
                                        reveal(spec_occupied);
                                        assert(spec_pool(m1).count(x) == spec_pool(m).count(x));
                                        assert(spec_pool(mp).count(x) + (
                                        if reg.is_temporary && x == reg.value {
                                            1int
                                        } else {
                                            0int
                                        }) == spec_pool(m1).count(x));
                                        assert(spec_occupied(m).count(x) == 1);
                                    }
                                },
                                _ => {},
                            }
                        },
                        None => {},
                    }
                },
                _ => {},
            }
        },
    }
}

/// The names bound by the `let` statements of a sequence, each unbound
/// at the point of its statement.
pub open spec fn spec_lets_fresh(ss: Seq<StatementModel>, vars: Seq<(Seq<char>, Register)>) -> bool
    decreases ss.len(),
{
    if ss.len() == 0 {
        true
    } else {
        match ss[0] {
            StatementModel::LetStatement(l) => spec_lookup(vars, l.identifier.name) is None
                && (forall|vars2: Seq<(Seq<char>, Register)>|
                    vars2.len() == vars.len() + 1 && vars2.drop_last() == vars
                        && vars2.last().0 == l.identifier.name ==> spec_lets_fresh(
                        ss.drop_first(),
                        vars2,
                    )),
            _ => spec_lets_fresh(ss.drop_first(), vars),
        }
    }
}

/// How many `let` statements a sequence holds.
pub open spec fn spec_let_count(ss: Seq<StatementModel>) -> int
    decreases ss.len(),
{
    if ss.len() == 0 {
        0
    } else {
        (if ss[0] is LetStatement {
            1int
        } else {
            0int
        }) + spec_let_count(ss.drop_first())
    }
}

/// Compiling a statement sequence preserves the ownership partition and
/// binds one variable per `let`.
proof fn lemma_stmts_partition(ss: Seq<StatementModel>, m: CompilerModel)
    requires
        spec_regs_partition(m),
        spec_vars_nontemp(m.variables),
        spec_lets_fresh(ss, m.variables),
    ensures
        spec_compile_statements(ss, m) matches CompileStep::Done(m2) ==> {
            &&& spec_regs_partition(m2)
            &&& spec_vars_nontemp(m2.variables)
            &&& m2.variables.len() == m.variables.len() + spec_let_count(ss)
        },
    decreases ss.len(),
{
    if ss.len() > 0 {
        lemma_stmt_partition(ss[0], m);
        match spec_compile_statement(ss[0], m) {
            CompileStep::Done(m1) => {
                lemma_stmts_partition(ss.drop_first(), m1);
            },
            _ => {},
        }
    }
}

/// LAW: register conservation. Compiling a sequence of statements on a
/// fresh compiler, each `let` binding a name unbound at its point,
/// leaves every one of the 256 registers owned exactly once, by the
/// free list or by a variable: the free list holds exactly
/// `256 - v` indices, where `v`, the number of variables bound, equals
/// the number of `let` statements; the operand stack is empty.
pub proof fn lemma_register_conservation(
    ss: Seq<StatementModel>,
    source: Seq<char>,
    filename: Seq<char>,
)
    requires
        spec_lets_fresh(ss, Seq::<(Seq<char>, Register)>::empty()),
    ensures
        spec_compile_statements(
            ss,
            CompilerModel { filename, source_code: source, ..spec_fresh_compiler() },
        ) matches CompileStep::Done(m2) ==> {
            &&& m2.variables.len() == spec_let_count(ss)
            &&& m2.free.len() + m2.variables.len() == 256
            &&& m2.operands.len() == 0
        },
{
    broadcast use vstd::seq_lib::group_to_multiset_ensures;
    broadcast use vstd::multiset::group_multiset_axioms;

    let m = CompilerModel { filename, source_code: source, ..spec_fresh_compiler() };
    lemma_fresh_partition(m);
    lemma_stmts_partition(ss, m);
    lemma_stmts_operands(ss, m);
    reveal(spec_occupied);
    match spec_compile_statements(ss, m) {
        CompileStep::Done(m2) => {
            assert(m2.operands =~= Seq::<OperandModel>::empty());
            assert(spec_temp_regs(m2.operands) =~= Seq::<u8>::empty());
            lemma_initial_free_counts();
            assert(spec_occupied(m2) =~= spec_initial_free().to_multiset());
            assert(spec_occupied(m2).len() == spec_initial_free().to_multiset().len());
            assert(spec_initial_free().to_multiset().len() == 256);
            assert(spec_occupied(m2).len() == m2.free.to_multiset().len() + spec_var_regs(
                m2.variables,
            ).to_multiset().len() + spec_temp_regs(m2.operands).to_multiset().len());
            assert(spec_var_regs(m2.variables).len() == m2.variables.len());
        },
        _ => {},
    }
}


/// LAW: compilation is deterministic. What `compile_function_body`
/// leaves in the compiler is defined by a function of the syntax tree
/// and the starting state alone, so two runs from equal states produce
/// the same instruction sequence, or the same error.
pub proof fn lemma_compilation_deterministic(
    body: FunctionBodyModel,
    m: CompilerModel,
    out1: CompileStep,
    out2: CompileStep,
)
    requires
        out1 == spec_compile_units(body.control_flow_structures, m),
        out2 == spec_compile_units(body.control_flow_structures, m),
    ensures
        out1 == out2,
{
}


/// LAW: register conservation at the public surface. For a program
/// whose parse is one basic block of statements — a body without while
/// loops — each `let` binding a name unbound at its point, a
/// successful compilation leaves every register owned exactly once by
/// the free list or a variable: the free list holds `256 - v` indices,
/// where `v`, the number of variables bound, is the number of `let`
/// statements; the operand stack is empty. `compile`'s contract hands
/// this state out as its final one.
pub proof fn lemma_compile_free_list(body: FunctionBodyModel, source: Seq<char>, filename: Seq<char>)
    requires
        body.control_flow_structures.len() == 1,
        body.control_flow_structures[0] matches ControlFlowModel::BasicBlock(b) && spec_lets_fresh(
            b.statements,
            Seq::<(Seq<char>, Register)>::empty(),
        ),
    ensures
        spec_compile_body(body, source, filename) matches CompileStep::Done(m) ==> {
            &&& m.variables.len() == spec_let_count(
                body.control_flow_structures[0]->BasicBlock_0.statements,
            )
            &&& m.free.len() + m.variables.len() == 256
            &&& m.operands.len() == 0
        },
{
    let m0 = CompilerModel { filename, source_code: source, ..spec_fresh_compiler() };
    let cfs = body.control_flow_structures;
    match cfs[0] {
        ControlFlowModel::BasicBlock(b) => {
            lemma_register_conservation(b.statements, source, filename);
            assert(spec_compile_units(cfs, m0) == match spec_compile_statements(
                b.statements,
                m0,
            ) {
                CompileStep::Done(m1) => spec_compile_units(cfs.drop_first(), m1),
                other => other,
            });
            match spec_compile_statements(b.statements, m0) {
                CompileStep::Done(m1) => {
                    assert(cfs.drop_first().len() == 0);
                    assert(spec_compile_units(cfs.drop_first(), m1) == CompileStep::Done(m1));
                },
                _ => {},
            }
        },
        _ => {},
    }
}

/// The register-allocating bytecode compiler. It owns the free list of
/// register indices, the operand stack of pending results, the variable
/// bindings of the single flat scope, and the instruction vector being
/// built.
#[derive(Debug)]
pub struct Compiler {
    filename: String,
    source_code: String,
    register_stack: Vec<u8>,
    operand_stack: Vec<Operand>,
    variables: Vec<(String, Register)>,
    bytecode: Vec<Opcode>,
}

impl View for Compiler {
    type V = CompilerModel;

    closed spec fn view(&self) -> CompilerModel {
        CompilerModel {
            filename: self.filename@,
            source_code: self.source_code@,
            free: self.register_stack@,
            operands: self.operand_stack@.map_values(|o: Operand| o@),
            variables: self.variables@.map_values(|p: (String, Register)| (p.0@, p.1)),
            bytecode: self.bytecode@.map_values(|op: Opcode| op@),
        }
    }
}

/// An error from `compile`: either a diagnosable fault in the source
/// program, or an internal limit of the compiler itself.
#[derive(Debug)]
pub enum CompileError {
    User(Error),
    Internal(String),
}

impl Compiler {
    pub fn new() -> (c: Compiler)
        ensures
            c@ == spec_fresh_compiler(),
    {
        let mut c = Compiler {
            filename: String::new(),
            source_code: String::new(),
            register_stack: Vec::with_capacity(256),
            operand_stack: Vec::new(),
            variables: Vec::new(),
            bytecode: Vec::new(),
        };
        c.reset();
        proof {
            assert(c@ =~= spec_fresh_compiler()) by {
                assert(c@.operands =~= Seq::<OperandModel>::empty());
                assert(c@.variables =~= Seq::<(Seq<char>, Register)>::empty());
                assert(c@.bytecode =~= Seq::<OpcodeModel>::empty());
            }
        }
        c
    }

    /// Return the compiler to the state of a freshly constructed one:
    /// the operand stack, variable bindings and instruction vector are
    /// emptied and the free list is refilled with `255..=0`.
    pub fn reset(&mut self)
        ensures
            final(self)@ == spec_fresh_compiler(),
    {
        self.register_stack = Vec::new();
        let mut i: u16 = 0;
        while i < 256
            invariant
                i <= 256,
                self.register_stack@.len() == i,
                forall|k: int| 0 <= k < i ==> self.register_stack@[k] == (255 - k) as u8,
            decreases 256 - i,
        {
            self.register_stack.push((255 - i) as u8);
            i = i + 1;
        }
        self.filename = String::new();
        self.source_code = String::new();
        self.operand_stack = Vec::new();
        self.variables = Vec::new();
        self.bytecode = Vec::new();
        proof {
            assert(final(self)@ =~= spec_fresh_compiler()) by {
                assert(final(self)@.free =~= spec_initial_free());
                assert(final(self)@.operands =~= Seq::<OperandModel>::empty());
                assert(final(self)@.variables =~= Seq::<(Seq<char>, Register)>::empty());
                assert(final(self)@.bytecode =~= Seq::<OpcodeModel>::empty());
            }
        }
    }

    /// How many registers are currently free.
    pub fn free_register_count(&self) -> (n: usize)
        ensures
            n == self@.free.len(),
    {
        self.register_stack.len()
    }

    /// How many variable bindings are currently live.
    pub fn variable_count(&self) -> (n: usize)
        ensures
            n == self@.variables.len(),
    {
        self.variables.len()
    }

    /// Binding of `name`, if any.
    fn lookup_variable(&self, name: &String) -> (r: Option<Register>)
        ensures
            r == spec_lookup(self@.variables, name@),
    {
        let ghost vars = self@.variables;
        let n = self.variables.len();
        let mut i: usize = 0;
        while i < n
            invariant
                n == self.variables.len(),
                i <= n,
                vars == self@.variables,
                vars.len() == n,
                forall|k: int| 0 <= k < i ==> vars[k].0 != name@,
            decreases n - i,
        {
            proof {
                assert(vars[i as int] == (self.variables@[i as int].0@, self.variables@[i as int].1));
            }
            if crate::textops::str_eq(self.variables[i].0.as_str(), name.as_str()) {
                proof {
                    lemma_lookup_found(vars, name@, i as int);
                }
                return Some(self.variables[i].1);
            }
            i = i + 1;
        }
        proof {
            lemma_lookup_missing(vars, name@);
        }
        None
    }

    /// Bind `name` to `reg`, replacing any existing binding of the name.
    fn insert_variable(&mut self, name: String, reg: Register)
        ensures
            final(self)@ == (CompilerModel {
                variables: spec_insert(old(self)@.variables, name@, reg),
                ..old(self)@
            }),
    {
        let ghost vars = old(self)@.variables;
        let n = self.variables.len();
        let mut i: usize = 0;
        while i < n
            invariant
                n == self.variables.len(),
                i <= n,
                self@ == old(self)@,
                vars == self@.variables,
                vars.len() == n,
                forall|k: int| 0 <= k < i ==> vars[k].0 != name@,
            decreases n - i,
        {
            proof {
                assert(vars[i as int] == (self.variables@[i as int].0@, self.variables@[i as int].1));
            }
            if crate::textops::str_eq(self.variables[i].0.as_str(), name.as_str()) {
                self.variables[i] = (name, reg);
                proof {
                    lemma_insert_replaces(vars, vars[i as int].0, reg, i as int);
                    assert(final(self)@.variables =~= spec_insert(vars, final(self)@.variables[i as int].0, reg));
                    assert(final(self)@ =~= (CompilerModel {
                        variables: spec_insert(vars, final(self)@.variables[i as int].0, reg),
                        ..old(self)@
                    }));
                }
                return;
            }
            i = i + 1;
        }
        self.variables.push((name, reg));
        proof {
            lemma_insert_appends(vars, final(self)@.variables.last().0, reg);
            assert(final(self)@.variables =~= spec_insert(vars, final(self)@.variables.last().0, reg));
            assert(final(self)@ =~= (CompilerModel {
                variables: spec_insert(vars, final(self)@.variables.last().0, reg),
                ..old(self)@
            }));
        }
    }

    /// Pop the top operand, loading a deferred literal into a freshly
    /// allocated register if needed.
    fn get_register(&mut self) -> (r: Result<Register, CompileError>)
        requires
            old(self)@.operands.len() > 0,
        ensures
            match spec_materialise(old(self)@) {
                Some((m2, reg)) => r matches Ok(reg2) && reg2 == reg && final(self)@ == m2,
                None => (r matches Err(CompileError::Internal(msg))
                    && msg@ == spec_out_of_registers()),
            },
    {
        let top = self.operand_stack.pop().unwrap();
        match top {
            Operand::Register(reg) => {
                proof {
                    assert(final(self)@ =~= spec_materialise(old(self)@).unwrap().0) by {
                        assert(final(self)@.operands =~= old(self)@.operands.drop_last());
                    }
                }
                Ok(reg)
            },
            Operand::Value(value) => {
                let idx = match self.register_stack.pop() {
                    Some(idx) => idx,
                    None => {
                        return Err(CompileError::Internal("Ran out of registers".to_owned()));
                    },
                };
                let data_type = value.data_type();
                let op = match value {
                    Value::Int(x) => Opcode::LoadInt(idx, x),
                    Value::Float(x) => Opcode::LoadFloat(idx, x),
                    Value::Bool(x) => Opcode::LoadBool(idx, x),
                    Value::Str(x) => Opcode::LoadStr(idx, x),
                    Value::Char(x) => Opcode::LoadChar(idx, x),
                };
                self.bytecode.push(op);
                proof {
                    assert(final(self)@ =~= spec_materialise(old(self)@).unwrap().0) by {
                        assert(final(self)@.operands =~= old(self)@.operands.drop_last());
                        assert(final(self)@.bytecode =~= old(self)@.bytecode.push(
                            spec_load_op(idx, old(self)@.operands.last()->Value_0),
                        ));
                    }
                }
                Ok(Register { value: idx, data_type, is_temporary: true })
            },
        }
    }


    fn new_binary_operation_error(
        &self,
        binop: &BinaryOperation,
        right_register: &Register,
        left_register: &Register,
    ) -> (e: Error)
        ensures
            e@ == spec_binop_error(
                self@,
                binop@,
                left_register.data_type,
                right_register.data_type,
            ),
    {
        Error::new(
            self.filename.clone(),
            self.source_code.clone(),
            ErrorKind::InvalidBinaryOperation(
                binop.operator,
                left_register.data_type.typename(),
                right_register.data_type.typename(),
            ),
            binop.left().span(),
            binop.operator_span,
        )
    }

    fn new_unary_operation_error(&self, unop: &UnaryOperation, register: &Register) -> (e: Error)
        ensures
            e@ == spec_unop_error(self@, unop@, register.data_type),
    {
        Error::new(
            self.filename.clone(),
            self.source_code.clone(),
            ErrorKind::InvalidUnaryOperation(unop.operator, register.data_type.typename()),
            unop.span,
            unop.operator_span,
        )
    }

    fn new_identifier_not_found_error(&self, identifier: &Identifier, context: Span) -> (e: Error)
        ensures
            e@ == spec_identifier_not_found(self@, identifier@, context),
    {
        Error::new(
            self.filename.clone(),
            self.source_code.clone(),
            ErrorKind::IdentifierNotFound,
            context,
            identifier.span,
        )
    }

    fn new_invalid_assignment_error(
        &self,
        lhs_type: String,
        rhs_type: String,
        context: Span,
        error: Span,
    ) -> (e: Error)
        ensures
            e@ == (ErrorModel {
                filename: self@.filename,
                source_code: self@.source_code,
                kind: ErrorKindModel::InvalidAssignment(lhs_type@, rhs_type@),
                context,
                error,
            }),
    {
        Error::new(
            self.filename.clone(),
            self.source_code.clone(),
            ErrorKind::InvalidAssignment(lhs_type, rhs_type),
            context,
            error,
        )
    }

    /// Compile one expression; its pending result ends up on the operand
    /// stack. A `target_register` is used only for the final opcode of
    /// this expression.
    pub fn compile_expression(
        &mut self,
        expression: &Expression,
        target_register: Option<u8>,
    ) -> (r: Result<(), CompileError>)
        ensures
            match spec_compile_expression(expression@, target_register, old(self)@) {
                CompileStep::Done(m2) => r is Ok && final(self)@ == m2,
                CompileStep::UserError(em) => r matches Err(CompileError::User(e)) && e@ == em,
                CompileStep::Fatal(msg) => r matches Err(CompileError::Internal(s)) && s@ == msg,
            },
            expression@ is Identifier && r is Err ==> final(self)@ == old(self)@,
        decreases *expression,
    {
        let ghost m0 = self@;
        match expression {
            Expression::Literal(literal) => {
                self.operand_stack.push(Operand::Value(literal.value.duplicate()));
                proof {
                    assert(self@ =~= (CompilerModel {
                        operands: m0.operands.push(OperandModel::Value(literal.value@)),
                        ..m0
                    }));
                }
                Ok(())
            },
            Expression::Identifier(identifier) => {
                match self.lookup_variable(&identifier.name) {
                    Some(register) => {
                        self.operand_stack.push(Operand::Register(register));
                        proof {
                            assert(self@ =~= (CompilerModel {
                                operands: m0.operands.push(OperandModel::Register(register)),
                                ..m0
                            }));
                        }
                        Ok(())
                    },
                    None => Err(
                        CompileError::User(
                            self.new_identifier_not_found_error(identifier, identifier.span),
                        ),
                    ),
                }
            },
            Expression::BinaryOperation(binop) => {
                match self.compile_expression(&*binop.left, None) {
                    Ok(()) => {},
                    Err(e) => {
                        return Err(e);
                    },
                }
                let ghost m1 = self@;
                match self.compile_expression(&*binop.right, None) {
                    Ok(()) => {},
                    Err(e) => {
                        return Err(e);
                    },
                }
                let ghost m2 = self@;
                proof {
                    lemma_expr_operands((*binop.left)@, None, m0);
                    lemma_expr_operands((*binop.right)@, None, m1);
                    assert(m2.operands.len() >= 2);
                }
                let right_register = match self.get_register() {
                    Ok(x) => x,
                    Err(e) => {
                        return Err(e);
                    },
                };
                let left_register = match self.get_register() {
                    Ok(x) => x,
                    Err(e) => {
                        return Err(e);
                    },
                };
                let result_type = match binary_rule(
                    binop.operator,
                    left_register.data_type,
                    right_register.data_type,
                ) {
                    Some(t) => t,
                    None => {
                        return Err(
                            CompileError::User(
                                self.new_binary_operation_error(
                                    binop,
                                    &right_register,
                                    &left_register,
                                ),
                            ),
                        );
                    },
                };
                let dest = match target_register {
                    Some(reg) => reg,
                    None => {
                        if right_register.is_temporary {
                            right_register.value
                        } else if left_register.is_temporary {
                            left_register.value
                        } else {
                            match self.register_stack.pop() {
                                Some(x) => x,
                                None => {
                                    return Err(
                                        CompileError::Internal("Ran out of registers".to_owned()),
                                    );
                                },
                            }
                        }
                    },
                };
                let oc = build_binary_opcode(
                    binop.operator,
                    left_register.data_type,
                    right_register.data_type,
                    left_register.value,
                    right_register.value,
                    dest,
                );
                self.bytecode.push(oc);
                self.operand_stack.push(
                    Operand::Register(Register::new(dest, result_type, true)),
                );
                if left_register.is_temporary && left_register.value != dest {
                    self.register_stack.push(left_register.value);
                }
                if right_register.is_temporary && right_register.value != dest {
                    self.register_stack.push(right_register.value);
                }
                proof {
                    let step = spec_compile_expression(expression@, target_register, m0);
                    assert(step matches CompileStep::Done(m8) && self@ =~= m8);
                }
                Ok(())
            },
            Expression::UnaryOperation(unop) => {
                match self.compile_expression(&*unop.operand, None) {
                    Ok(()) => {},
                    Err(e) => {
                        return Err(e);
                    },
                }
                let ghost m1 = self@;
                proof {
                    lemma_expr_operands((*unop.operand)@, None, m0);
                    assert(m1.operands.len() >= 1);
                }
                let register = match self.get_register() {
                    Ok(x) => x,
                    Err(e) => {
                        return Err(e);
                    },
                };
                let result_type = match unary_rule(unop.operator, register.data_type) {
                    Some(t) => t,
                    None => {
                        return Err(
                            CompileError::User(self.new_unary_operation_error(unop, &register)),
                        );
                    },
                };
                let dest = match target_register {
                    Some(reg) => reg,
                    None => {
                        if register.is_temporary {
                            register.value
                        } else {
                            match self.register_stack.pop() {
                                Some(x) => x,
                                None => {
                                    return Err(
                                        CompileError::Internal("Ran out of registers".to_owned()),
                                    );
                                },
                            }
                        }
                    },
                };
                let oc = build_unary_opcode(unop.operator, register.data_type, register.value, dest);
                self.bytecode.push(oc);
                self.operand_stack.push(
                    Operand::Register(Register::new(dest, result_type, true)),
                );
                if register.is_temporary && register.value != dest {
                    self.register_stack.push(register.value);
                }
                proof {
                    let step = spec_compile_expression(expression@, target_register, m0);
                    assert(step matches CompileStep::Done(m4) && self@ =~= m4);
                }
                Ok(())
            },
        }
    }


    /// Compile a `let` statement.
    fn compile_let_statement(&mut self, let_statement: &LetStatement) -> (r: Result<
        (),
        CompileError,
    >)
        ensures
            match spec_compile_let(let_statement@, old(self)@) {
                CompileStep::Done(m2) => r is Ok && final(self)@ == m2,
                CompileStep::UserError(em) => r matches Err(CompileError::User(e)) && e@ == em,
                CompileStep::Fatal(msg) => r matches Err(CompileError::Internal(s)) && s@ == msg,
            },
            spec_is_keyword(let_statement@.identifier.name) ==> final(self)@ == old(self)@,
    {
        let ghost m0 = self@;
        if Self::is_keyword(let_statement.identifier.name.as_str()) {
            return Err(
                CompileError::User(
                    Error::new(
                        self.filename.clone(),
                        self.source_code.clone(),
                        ErrorKind::IdentifierIsKeyword,
                        let_statement.span,
                        let_statement.identifier.span,
                    ),
                ),
            );
        }
        match self.compile_expression(&*let_statement.expression, None) {
            Ok(()) => {},
            Err(e) => {
                return Err(e);
            },
        }
        proof {
            lemma_expr_operands((*let_statement.expression)@, None, m0);
        }
        let reg = match self.get_register() {
            Ok(x) => x,
            Err(e) => {
                return Err(e);
            },
        };
        if reg.is_temporary {
            self.insert_variable(
                let_statement.identifier.name.clone(),
                Register::new(reg.value, reg.data_type, false),
            );
            proof {
                let step = spec_compile_let(let_statement@, m0);
                assert(step matches CompileStep::Done(m2) && self@ =~= m2);
            }
        } else {
            let idx = match self.register_stack.pop() {
                Some(x) => x,
                None => {
                    return Err(CompileError::Internal("Ran out of registers".to_owned()));
                },
            };
            self.bytecode.push(Opcode::Copy(reg.value, idx));
            self.insert_variable(
                let_statement.identifier.name.clone(),
                Register::new(idx, reg.data_type, false),
            );
            proof {
                let step = spec_compile_let(let_statement@, m0);
                assert(step matches CompileStep::Done(m2) && self@ =~= m2);
            }
        }
        Ok(())
    }

    /// Compile an assignment statement.
    fn compile_assignment(&mut self, assignment: &Assignment) -> (r: Result<(), CompileError>)
        ensures
            match spec_compile_assignment(assignment@, old(self)@) {
                CompileStep::Done(m2) => r is Ok && final(self)@ == m2,
                CompileStep::UserError(em) => r matches Err(CompileError::User(e)) && e@ == em,
                CompileStep::Fatal(msg) => r matches Err(CompileError::Internal(s)) && s@ == msg,
            },
    {
        let ghost m0 = self@;
        let lhs_reg = match self.lookup_variable(&assignment.lhs.name) {
            Some(reg) => reg,
            None => {
                return Err(
                    CompileError::User(
                        self.new_identifier_not_found_error(&assignment.lhs, assignment.span),
                    ),
                );
            },
        };
        match assignment.operator {
            AssignmentOperator::Basic => {
                match &*assignment.rhs {
                    Expression::Literal(literal) => {
                        let value_type = literal.value.data_type();
                        if lhs_reg.data_type == value_type {
                            let oc = load_opcode(lhs_reg.value, literal.value.duplicate());
                            self.bytecode.push(oc);
                            proof {
                                let step = spec_compile_assignment(assignment@, m0);
                                assert(step matches CompileStep::Done(m2) && self@ =~= m2);
                            }
                            Ok(())
                        } else {
                            Err(
                                CompileError::User(
                                    self.new_invalid_assignment_error(
                                        lhs_reg.data_type.typename(),
                                        value_type.typename(),
                                        assignment.span,
                                        assignment.operator_span,
                                    ),
                                ),
                            )
                        }
                    },
                    Expression::Identifier(identifier) => {
                        let rhs_reg = match self.lookup_variable(&identifier.name) {
                            Some(reg) => reg,
                            None => {
                                return Err(
                                    CompileError::User(
                                        self.new_identifier_not_found_error(
                                            identifier,
                                            assignment.span,
                                        ),
                                    ),
                                );
                            },
                        };
                        if lhs_reg.data_type == rhs_reg.data_type {
                            self.bytecode.push(Opcode::Copy(rhs_reg.value, lhs_reg.value));
                            proof {
                                let step = spec_compile_assignment(assignment@, m0);
                                assert(step matches CompileStep::Done(m2) && self@ =~= m2);
                            }
                            Ok(())
                        } else {
                            Err(
                                CompileError::User(
                                    self.new_invalid_assignment_error(
                                        lhs_reg.data_type.typename(),
                                        rhs_reg.data_type.typename(),
                                        assignment.span,
                                        assignment.operator_span,
                                    ),
                                ),
                            )
                        }
                    },
                    _ => {
                        match self.compile_expression(&*assignment.rhs, Some(lhs_reg.value)) {
                            Ok(()) => {},
                            Err(e) => {
                                return Err(e);
                            },
                        }
                        proof {
                            lemma_expr_operands((*assignment.rhs)@, Some(lhs_reg.value), m0);
                        }
                        let expression_result = match self.get_register() {
                            Ok(x) => x,
                            Err(e) => {
                                return Err(e);
                            },
                        };
                        if lhs_reg.data_type == expression_result.data_type {
                            proof {
                                let step = spec_compile_assignment(assignment@, m0);
                                assert(step matches CompileStep::Done(m2) && self@ =~= m2);
                            }
                            Ok(())
                        } else {
                            Err(
                                CompileError::User(
                                    self.new_invalid_assignment_error(
                                        lhs_reg.data_type.typename(),
                                        expression_result.data_type.typename(),
                                        assignment.span,
                                        assignment.operator_span,
                                    ),
                                ),
                            )
                        }
                    },
                }
            },
            _ => {
                let bop = match assignment.operator {
                    AssignmentOperator::Add => BinaryOperator::Add,
                    AssignmentOperator::Sub => BinaryOperator::Sub,
                    AssignmentOperator::Mul => BinaryOperator::Mul,
                    AssignmentOperator::Div => BinaryOperator::Div,
                    AssignmentOperator::Mod => BinaryOperator::Mod,
                    AssignmentOperator::Basic => BinaryOperator::Add,
                };
                match self.compile_expression(&*assignment.rhs, None) {
                    Ok(()) => {},
                    Err(e) => {
                        return Err(e);
                    },
                }
                proof {
                    lemma_expr_operands((*assignment.rhs)@, None, m0);
                }
                let rhs_reg = match self.get_register() {
                    Ok(x) => x,
                    Err(e) => {
                        return Err(e);
                    },
                };
                match binary_rule(bop, lhs_reg.data_type, rhs_reg.data_type) {
                    Some(result_type) => {
                        if result_type == lhs_reg.data_type {
                            let oc = build_binary_opcode(
                                bop,
                                lhs_reg.data_type,
                                rhs_reg.data_type,
                                lhs_reg.value,
                                rhs_reg.value,
                                lhs_reg.value,
                            );
                            self.bytecode.push(oc);
                            if rhs_reg.is_temporary && rhs_reg.value != lhs_reg.value {
                                self.register_stack.push(rhs_reg.value);
                            }
                            proof {
                                let step = spec_compile_assignment(assignment@, m0);
                                assert(step matches CompileStep::Done(m2) && self@ =~= m2);
                            }
                            Ok(())
                        } else {
                            Err(
                                CompileError::User(
                                    self.new_invalid_assignment_error(
                                        lhs_reg.data_type.typename(),
                                        rhs_reg.data_type.typename(),
                                        assignment.span,
                                        assignment.operator_span,
                                    ),
                                ),
                            )
                        }
                    },
                    None => Err(
                        CompileError::User(
                            self.new_invalid_assignment_error(
                                lhs_reg.data_type.typename(),
                                rhs_reg.data_type.typename(),
                                assignment.span,
                                assignment.operator_span,
                            ),
                        ),
                    ),
                }
            },
        }
    }

    /// Compile a `return` statement.
    fn compile_return_statement(&mut self, return_statement: &ReturnStatement) -> (r: Result<
        (),
        CompileError,
    >)
        ensures
            match spec_compile_statement(
                StatementModel::ReturnStatement(return_statement@),
                old(self)@,
            ) {
                CompileStep::Done(m2) => r is Ok && final(self)@ == m2,
                CompileStep::UserError(em) => r matches Err(CompileError::User(e)) && e@ == em,
                CompileStep::Fatal(msg) => r matches Err(CompileError::Internal(s)) && s@ == msg,
            },
    {
        let ghost m0 = self@;
        match self.compile_expression(&*return_statement.expression, None) {
            Ok(()) => {},
            Err(e) => {
                return Err(e);
            },
        }
        proof {
            lemma_expr_operands((*return_statement.expression)@, None, m0);
        }
        let result_register = match self.get_register() {
            Ok(x) => x,
            Err(e) => {
                return Err(e);
            },
        };
        self.bytecode.push(Opcode::Save(result_register.value));
        if result_register.is_temporary {
            self.register_stack.push(result_register.value);
        }
        proof {
            let step = spec_compile_statement(StatementModel::ReturnStatement(return_statement@), m0);
            assert(step matches CompileStep::Done(m2) && self@ =~= m2);
        }
        Ok(())
    }

    /// Compile one statement.
    fn compile_statement(&mut self, statement: &Statement) -> (r: Result<(), CompileError>)
        ensures
            match spec_compile_statement(statement@, old(self)@) {
                CompileStep::Done(m2) => r is Ok && final(self)@ == m2,
                CompileStep::UserError(em) => r matches Err(CompileError::User(e)) && e@ == em,
                CompileStep::Fatal(msg) => r matches Err(CompileError::Internal(s)) && s@ == msg,
            },
    {
        let ghost m0 = self@;
        match statement {
            Statement::LetStatement(let_statement) => self.compile_let_statement(let_statement),
            Statement::Assignment(assignment) => self.compile_assignment(assignment),
            Statement::ReturnStatement(return_statement) => self.compile_return_statement(
                return_statement,
            ),
            Statement::Expression(expression) => {
                match self.compile_expression(expression, None) {
                    Ok(()) => {},
                    Err(e) => {
                        return Err(e);
                    },
                }
                proof {
                    lemma_expr_operands(expression@, None, m0);
                }
                let result = match self.get_register() {
                    Ok(x) => x,
                    Err(e) => {
                        return Err(e);
                    },
                };
                if result.is_temporary {
                    self.register_stack.push(result.value);
                }
                proof {
                    let step = spec_compile_statement(statement@, m0);
                    assert(step matches CompileStep::Done(m2) && self@ =~= m2);
                }
                Ok(())
            },
        }
    }

    /// Compile the statements of a basic block, in order.
    fn compile_basic_block(&mut self, basic_block: &BasicBlock) -> (r: Result<(), CompileError>)
        ensures
            match spec_compile_statements(basic_block@.statements, old(self)@) {
                CompileStep::Done(m2) => r is Ok && final(self)@ == m2,
                CompileStep::UserError(em) => r matches Err(CompileError::User(e)) && e@ == em,
                CompileStep::Fatal(msg) => r matches Err(CompileError::Internal(s)) && s@ == msg,
            },
    {
        proof {
            assert(basic_block@.statements =~= basic_block.statements@.map_values(
                |st: Statement| st@,
            ));
        }
        self.compile_statement_list(&basic_block.statements)
    }

    /// Compile a list of statements, in order.
    #[verifier::loop_isolation(false)]
    fn compile_statement_list(&mut self, statements: &Vec<Statement>) -> (r: Result<
        (),
        CompileError,
    >)
        ensures
            match spec_compile_statements(
                statements@.map_values(|st: Statement| st@),
                old(self)@,
            ) {
                CompileStep::Done(m2) => r is Ok && final(self)@ == m2,
                CompileStep::UserError(em) => r matches Err(CompileError::User(e)) && e@ == em,
                CompileStep::Fatal(msg) => r matches Err(CompileError::Internal(s)) && s@ == msg,
            },
    {
        let ghost m0 = self@;
        let ghost sm = statements@.map_values(|st: Statement| st@);
        let n = statements.len();
        let mut i: usize = 0;
        proof {
            assert(sm.skip(0) =~= sm);
        }
        while i < n
            invariant
                i <= n,
                n == statements.len(),
                spec_compile_statements(sm, m0) == spec_compile_statements(
                    sm.skip(i as int),
                    self@,
                ),
            decreases n - i,
        {
            let ghost before = self@;
            proof {
                assert(sm[i as int] == statements@[i as int]@);
                assert(sm.skip(i as int)[0] == sm[i as int]);
                assert(sm.skip(i as int).drop_first() =~= sm.skip(i as int + 1));
            }
            match self.compile_statement(&statements[i]) {
                Ok(()) => {},
                Err(e) => {
                    proof {
                        assert(sm.skip(i as int).len() == n - i);
                        match spec_compile_statement(sm[i as int], before) {
                            CompileStep::Done(_) => {},
                            other => {
                                assert(spec_compile_statements(sm.skip(i as int), before)
                                    == other);
                            },
                        }
                    }
                    return Err(e);
                },
            }
            i = i + 1;
        }
        proof {
            assert(sm.skip(n as int) =~= Seq::<StatementModel>::empty());
        }
        Ok(())
    }


    /// Compile a while loop: condition, conditional exit, body, backward
    /// jump; the exit's offset is patched in once the body's length is
    /// known.
    fn compile_while_loop(&mut self, while_loop: &WhileLoop) -> (r: Result<(), CompileError>)
        ensures
            match spec_compile_while(while_loop@, old(self)@) {
                CompileStep::Done(m2) => r is Ok && final(self)@ == m2,
                CompileStep::UserError(em) => r matches Err(CompileError::User(e)) && e@ == em,
                CompileStep::Fatal(msg) => r matches Err(CompileError::Internal(s)) && s@ == msg,
            },
    {
        let ghost m0 = self@;
        let start_idx = self.bytecode.len();
        match self.compile_expression(&while_loop.condition, None) {
            Ok(()) => {},
            Err(e) => {
                return Err(e);
            },
        }
        proof {
            lemma_expr_operands(while_loop.condition@, None, m0);
            lemma_expr_grows(while_loop.condition@, None, m0);
        }
        let result_register = match self.get_register() {
            Ok(x) => x,
            Err(e) => {
                return Err(e);
            },
        };
        if !(result_register.data_type == DataType::Bool) {
            return Err(
                CompileError::User(
                    Error::new(
                        self.filename.clone(),
                        self.source_code.clone(),
                        ErrorKind::ArgumentInvalidType(
                            DataType::Bool.typename(),
                            result_register.data_type.typename(),
                        ),
                        while_loop.span,
                        while_loop.condition.span(),
                    ),
                ),
            );
        }
        let conditional_jump_opcode_idx = self.bytecode.len();
        self.bytecode.push(Opcode::Error);
        let ghost m3 = self@;
        proof {
            let step0 = spec_compile_expression(while_loop.condition@, None, m0);
            assert(step0 matches CompileStep::Done(_));
            let mc = step0->Done_0;
            assert(spec_materialise(mc) is Some);
            let md = spec_materialise(mc)->Some_0.0;
            assert(m3 =~= (CompilerModel { bytecode: md.bytecode.push(OpcodeModel::Error), ..md }));
        }
        match self.compile_statement_list(&while_loop.body.statements) {
            Ok(()) => {},
            Err(e) => {
                proof {
                    let step = spec_compile_while(while_loop@, m0);
                    match spec_compile_statements(while_loop@.body.statements, m3) {
                        CompileStep::Done(_) => {},
                        other => {
                            assert(step == other);
                        },
                    }
                }
                return Err(e);
            },
        }
        proof {
            lemma_stmts_grow(while_loop@.body.statements, m3);
        }
        let len_now = self.bytecode.len();
        let offset_to_start = len_now - start_idx;
        if offset_to_start > 32766 {
            return Err(CompileError::Internal("Jump offset cannot fit into i16".to_owned()));
        }
        let offset = offset_to_start + 1;
        let back: i16 = -(offset as i16);
        self.bytecode.push(Opcode::Jump(back));
        let forward = self.bytecode.len() - conditional_jump_opcode_idx - 1;
        if forward > 32767 {
            return Err(CompileError::Internal("Jump offset cannot fit into i16".to_owned()));
        }
        self.bytecode[conditional_jump_opcode_idx] = Opcode::JumpCond(
            result_register.value,
            forward as i16,
        );
        proof {
            let step = spec_compile_while(while_loop@, m0);
            assert(step matches CompileStep::Done(m9) && self@ =~= m9);
        }
        Ok(())
    }

    /// Compile one control-flow unit.
    fn compile_control_flow(&mut self, control_flow: &ControlFlow) -> (r: Result<(), CompileError>)
        ensures
            match spec_compile_control_flow(control_flow@, old(self)@) {
                CompileStep::Done(m2) => r is Ok && final(self)@ == m2,
                CompileStep::UserError(em) => r matches Err(CompileError::User(e)) && e@ == em,
                CompileStep::Fatal(msg) => r matches Err(CompileError::Internal(s)) && s@ == msg,
            },
    {
        match control_flow {
            ControlFlow::WhileLoop(while_loop) => self.compile_while_loop(while_loop),
            ControlFlow::BasicBlock(basic_block) => self.compile_basic_block(basic_block),
        }
    }

    /// Compile a parsed function body on the current compiler state.
    #[verifier::loop_isolation(false)]
    pub fn compile_function_body(&mut self, function_body: &FunctionBody) -> (r: Result<
        (),
        CompileError,
    >)
        ensures
            match spec_compile_units(function_body@.control_flow_structures, old(self)@) {
                CompileStep::Done(m2) => r is Ok && final(self)@ == m2,
                CompileStep::UserError(em) => r matches Err(CompileError::User(e)) && e@ == em,
                CompileStep::Fatal(msg) => r matches Err(CompileError::Internal(s)) && s@ == msg,
            },
    {
        let ghost m0 = self@;
        let ghost cfs = function_body@.control_flow_structures;
        let n = function_body.control_flow_structures.len();
        let mut i: usize = 0;
        proof {
            assert(cfs.skip(0) =~= cfs);
        }
        while i < n
            invariant
                i <= n,
                n == function_body.control_flow_structures.len(),
                spec_compile_units(cfs, m0) == spec_compile_units(cfs.skip(i as int), self@),
            decreases n - i,
        {
            let ghost before = self@;
            proof {
                assert(cfs.skip(i as int)[0] == cfs[i as int]);
                assert(cfs.skip(i as int).drop_first() =~= cfs.skip(i as int + 1));
            }
            match self.compile_control_flow(&function_body.control_flow_structures[i]) {
                Ok(()) => {},
                Err(e) => {
                    proof {
                        match spec_compile_control_flow(cfs[i as int], before) {
                            CompileStep::Done(_) => {},
                            other => {
                                assert(spec_compile_units(cfs.skip(i as int), before) == other);
                            },
                        }
                    }
                    return Err(e);
                },
            }
            i = i + 1;
        }
        proof {
            assert(cfs.skip(n as int) =~= Seq::<ControlFlowModel>::empty());
        }
        Ok(())
    }

    /// Compile source text into an instruction vector. The text is
    /// parsed by the grammar's model-level parse, the compiler is
    /// reset, and the parsed body is lowered by the model-level
    /// compilation; an error in the program is rendered as a report
    /// over the source. On success the result is exactly the emitted
    /// sequence, the compiler keeps the final allocation state with an
    /// emptied instruction buffer, every jump lands in bounds, the
    /// patch placeholder is gone, and the operand stack is empty.
    #[verifier::rlimit(60)]
    pub fn compile(&mut self, source_code: &str, filename: &str) -> (r: Result<Vec<Opcode>, String>)
        ensures
            match spec_parse(source_code@) {
                Err(msg) => r matches Err(s) && s@ == msg && final(self)@ == old(self)@,
                Ok(bm) => match spec_compile_body(bm, source_code@, filename@) {
                    CompileStep::Done(m) => r matches Ok(code) && code@.map_values(
                        |op: Opcode| op@,
                    ) == m.bytecode && final(self)@ == (CompilerModel {
                        bytecode: Seq::<OpcodeModel>::empty(),
                        ..m
                    }),
                    CompileStep::UserError(em) => r matches Err(s) && s@ == spec_format_error(em),
                    CompileStep::Fatal(msg) => r matches Err(s) && s@ == msg,
                },
            },
            match r {
                Ok(code) => final(self)@.operands.len() == 0 && spec_jumps_in_bounds(
                    code@.map_values(|op: Opcode| op@),
                ) && spec_no_placeholder(code@.map_values(|op: Opcode| op@)),
                Err(_) => true,
            },
    {
        let function_body = match parser::parse(source_code) {
            Ok(body) => body,
            Err(e) => {
                return Err(e);
            },
        };
        self.reset();
        self.source_code = source_code.to_owned();
        self.filename = filename.to_owned();
        let ghost before_units = self@;
        proof {
            assert(before_units =~= (CompilerModel {
                filename: filename@,
                source_code: source_code@,
                ..spec_fresh_compiler()
            }));
        }
        match self.compile_function_body(&function_body) {
            Ok(()) => {
                proof {
                    lemma_units_operands(
                        function_body@.control_flow_structures,
                        before_units,
                    );
                    lemma_units_jumps(function_body@.control_flow_structures, before_units);
                }
            },
            Err(CompileError::User(e)) => {
                return Err(e.format_to_string());
            },
            Err(CompileError::Internal(message)) => {
                return Err(message);
            },
        }
        let mut result: Vec<Opcode> = Vec::new();
        core::mem::swap(&mut result, &mut self.bytecode);
        proof {
            let code = result@.map_values(|op: Opcode| op@);
            match spec_compile_body(function_body@, source_code@, filename@) {
                CompileStep::Done(m) => {
                    assert(code =~= m.bytecode);
                    assert(self@ =~= (CompilerModel {
                        bytecode: Seq::<OpcodeModel>::empty(),
                        ..m
                    }));
                },
                _ => {
                    assert(false);
                },
            }
            assert forall|i: int| 0 <= i < code.len() implies #[trigger] spec_jump_target_ok(
                code,
                i,
            ) by {
                assert(spec_appended_op_ok(code, i));
            }
            assert forall|i: int| 0 <= i < code.len() implies !((#[trigger] code[i]) is Error) by {
                assert(spec_appended_op_ok(code, i));
            }
        }
        Ok(result)
    }

    /// Whether `input` is one of the reserved keywords.
    pub fn is_keyword(input: &str) -> (r: bool)
        ensures
            r == spec_is_keyword(input@),
    {
        crate::textops::str_eq(input, "let") || crate::textops::str_eq(input, "return")
    }
}

} // verus!
