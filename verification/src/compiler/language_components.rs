use vstd::prelude::*;

verus! {

/// A half-open byte range `[start, end)` into the source text.
#[derive(Clone, Copy, Debug, PartialEq, Eq, Structural)]
pub struct Span {
    pub start: usize,
    pub end: usize,
}

impl Span {
    pub fn new(start: usize, end: usize) -> (s: Span)
        ensures
            s.start == start,
            s.end == end,
    {
        Span { start, end }
    }

    pub fn start(&self) -> (r: usize)
        ensures
            r == self.start,
    {
        self.start
    }

    pub fn end(&self) -> (r: usize)
        ensures
            r == self.end,
    {
        self.end
    }
}

/// The five primitive types of the language.
#[derive(Clone, Copy, Debug, PartialEq, Eq, Structural)]
pub enum DataType {
    Int,
    Float,
    Bool,
    Str,
    Char,
}

pub open spec fn spec_typename(t: DataType) -> Seq<char> {
    match t {
        DataType::Int => "int"@,
        DataType::Float => "float"@,
        DataType::Bool => "bool"@,
        DataType::Str => "string"@,
        DataType::Char => "char"@,
    }
}

impl DataType {
    pub fn typename(&self) -> (r: String)
        ensures
            r@ == spec_typename(*self),
    {
        match self {
            DataType::Int => "int".to_owned(),
            DataType::Float => "float".to_owned(),
            DataType::Bool => "bool".to_owned(),
            DataType::Str => "string".to_owned(),
            DataType::Char => "char".to_owned(),
        }
    }
}

/// A runtime value. Floating-point values are carried as the bit pattern of
/// an IEEE-754 binary64 number, so that every field is a plain value.
#[derive(Clone, Debug, PartialEq)]
pub enum Value {
    Int(i64),
    Float(u64),
    Bool(bool),
    Str(String),
    Char(char),
}

/// The mathematical model of a `Value`: strings become sequences of chars.
pub enum ValueModel {
    Int(i64),
    Float(u64),
    Bool(bool),
    Str(Seq<char>),
    Char(char),
}

impl ValueModel {
    pub open spec fn data_type(self) -> DataType {
        match self {
            ValueModel::Int(_) => DataType::Int,
            ValueModel::Float(_) => DataType::Float,
            ValueModel::Bool(_) => DataType::Bool,
            ValueModel::Str(_) => DataType::Str,
            ValueModel::Char(_) => DataType::Char,
        }
    }
}

impl View for Value {
    type V = ValueModel;

    open spec fn view(&self) -> ValueModel {
        match self {
            Value::Int(v) => ValueModel::Int(*v),
            Value::Float(v) => ValueModel::Float(*v),
            Value::Bool(v) => ValueModel::Bool(*v),
            Value::Str(v) => ValueModel::Str(v@),
            Value::Char(v) => ValueModel::Char(*v),
        }
    }
}

impl Value {
    pub fn data_type(&self) -> (r: DataType)
        ensures
            r == self@.data_type(),
    {
        match self {
            Value::Int(_) => DataType::Int,
            Value::Float(_) => DataType::Float,
            Value::Bool(_) => DataType::Bool,
            Value::Str(_) => DataType::Str,
            Value::Char(_) => DataType::Char,
        }
    }

    /// A verified deep copy; unlike the derived `Clone`, its contract
    /// states that the copy has the same model.
    pub fn duplicate(&self) -> (r: Value)
        ensures
            r@ == self@,
    {
        match self {
            Value::Int(v) => Value::Int(*v),
            Value::Float(v) => Value::Float(*v),
            Value::Bool(v) => Value::Bool(*v),
            Value::Str(v) => Value::Str(v.clone()),
            Value::Char(v) => Value::Char(*v),
        }
    }
}

#[derive(Clone, Copy, Debug, PartialEq, Eq, Structural)]
pub enum BinaryOperator {
    Or,
    And,
    Equal,
    NotEqual,
    LessThan,
    LessEq,
    GreaterThan,
    GreaterEq,
    Add,
    Sub,
    Mul,
    Div,
    Mod,
}

#[derive(Clone, Copy, Debug, PartialEq, Eq, Structural)]
pub enum UnaryOperator {
    Not,
    Neg,
}

#[derive(Clone, Copy, Debug, PartialEq, Eq, Structural)]
pub enum AssignmentOperator {
    Basic,
    Add,
    Sub,
    Mul,
    Div,
    Mod,
}

#[derive(Clone, Debug)]
pub struct Identifier {
    pub name: String,
    pub span: Span,
}

impl Identifier {
    pub fn new(name: String, span: Span) -> (r: Identifier)
        ensures
            r.name@ == name@,
            r.span == span,
    {
        Identifier { name, span }
    }

    pub fn name(&self) -> (r: &str)
        ensures
            r@ == self.name@,
    {
        self.name.as_str()
    }

    pub fn span(&self) -> (r: Span)
        ensures
            r == self.span,
    {
        self.span
    }
}

#[derive(Clone, Debug)]
pub struct Literal {
    pub value: Value,
    pub span: Span,
}

impl Literal {
    pub fn new(value: Value, span: Span) -> (r: Literal)
        ensures
            r.value@ == value@,
            r.span == span,
    {
        Literal { value, span }
    }

    pub fn span(&self) -> (r: Span)
        ensures
            r == self.span,
    {
        self.span
    }

    pub fn value(&self) -> (r: &Value)
        ensures
            r@ == self.value@,
    {
        &self.value
    }
}

#[derive(Debug)]
pub enum Expression {
    Literal(Literal),
    Identifier(Identifier),
    BinaryOperation(BinaryOperation),
    UnaryOperation(UnaryOperation),
}

pub open spec fn spec_expression_span(e: Expression) -> Span {
    match e {
        Expression::Literal(l) => l.span,
        Expression::Identifier(i) => i.span,
        Expression::BinaryOperation(b) => b.span,
        Expression::UnaryOperation(u) => u.span,
    }
}

impl Expression {
    pub fn span(&self) -> (r: Span)
        ensures
            r == spec_expression_span(*self),
    {
        match self {
            Expression::Literal(l) => l.span,
            Expression::Identifier(i) => i.span,
            Expression::BinaryOperation(b) => b.span,
            Expression::UnaryOperation(u) => u.span,
        }
    }
}

#[derive(Debug)]
pub struct BinaryOperation {
    pub span: Span,
    pub operator_span: Span,
    pub left: Box<Expression>,
    pub operator: BinaryOperator,
    pub right: Box<Expression>,
}

impl BinaryOperation {
    pub fn new(
        span: Span,
        operator_span: Span,
        left: Box<Expression>,
        operator: BinaryOperator,
        right: Box<Expression>,
    ) -> (r: BinaryOperation)
        ensures
            r == (BinaryOperation { span, operator_span, left, operator, right }),
    {
        BinaryOperation { span, operator_span, left, operator, right }
    }

    pub fn span(&self) -> (r: Span)
        ensures
            r == self.span,
    {
        self.span
    }

    pub fn operator_span(&self) -> (r: Span)
        ensures
            r == self.operator_span,
    {
        self.operator_span
    }

    pub fn left(&self) -> (r: &Expression)
        ensures
            r == &*self.left,
    {
        &self.left
    }

    pub fn operator(&self) -> (r: BinaryOperator)
        ensures
            r == self.operator,
    {
        self.operator
    }

    pub fn right(&self) -> (r: &Expression)
        ensures
            r == &*self.right,
    {
        &self.right
    }
}

#[derive(Debug)]
pub struct UnaryOperation {
    pub span: Span,
    pub operator_span: Span,
    pub operator: UnaryOperator,
    pub operand: Box<Expression>,
}

impl UnaryOperation {
    pub fn new(
        span: Span,
        operator_span: Span,
        operator: UnaryOperator,
        operand: Box<Expression>,
    ) -> (r: UnaryOperation)
        ensures
            r == (UnaryOperation { span, operator_span, operator, operand }),
    {
        UnaryOperation { span, operator_span, operator, operand }
    }

    pub fn span(&self) -> (r: Span)
        ensures
            r == self.span,
    {
        self.span
    }

    pub fn operator_span(&self) -> (r: Span)
        ensures
            r == self.operator_span,
    {
        self.operator_span
    }

    pub fn operator(&self) -> (r: UnaryOperator)
        ensures
            r == self.operator,
    {
        self.operator
    }

    pub fn operand(&self) -> (r: &Expression)
        ensures
            r == &*self.operand,
    {
        &self.operand
    }
}

#[derive(Debug)]
pub struct LetStatement {
    pub span: Span,
    pub identifier: Identifier,
    pub operator_span: Span,
    pub expression: Box<Expression>,
}

impl LetStatement {
    pub fn new(
        span: Span,
        identifier: Identifier,
        operator_span: Span,
        expression: Box<Expression>,
    ) -> (r: LetStatement)
        ensures
            r == (LetStatement { span, identifier, operator_span, expression }),
    {
        LetStatement { span, identifier, operator_span, expression }
    }

    pub fn span(&self) -> (r: Span)
        ensures
            r == self.span,
    {
        self.span
    }

    pub fn identifier(&self) -> (r: &Identifier)
        ensures
            r == &self.identifier,
    {
        &self.identifier
    }

    pub fn operator_span(&self) -> (r: Span)
        ensures
            r == self.operator_span,
    {
        self.operator_span
    }

    pub fn expression(&self) -> (r: &Expression)
        ensures
            r == &*self.expression,
    {
        &self.expression
    }
}

#[derive(Debug)]
pub struct Assignment {
    pub span: Span,
    pub lhs: Identifier,
    pub operator: AssignmentOperator,
    pub operator_span: Span,
    pub rhs: Box<Expression>,
}

impl Assignment {
    pub fn new(
        span: Span,
        lhs: Identifier,
        operator: AssignmentOperator,
        operator_span: Span,
        rhs: Box<Expression>,
    ) -> (r: Assignment)
        ensures
            r == (Assignment { span, lhs, operator, operator_span, rhs }),
    {
        Assignment { span, lhs, operator, operator_span, rhs }
    }

    pub fn span(&self) -> (r: Span)
        ensures
            r == self.span,
    {
        self.span
    }

    pub fn lhs(&self) -> (r: &Identifier)
        ensures
            r == &self.lhs,
    {
        &self.lhs
    }

    pub fn operator(&self) -> (r: AssignmentOperator)
        ensures
            r == self.operator,
    {
        self.operator
    }

    pub fn operator_span(&self) -> (r: Span)
        ensures
            r == self.operator_span,
    {
        self.operator_span
    }

    pub fn rhs(&self) -> (r: &Expression)
        ensures
            r == &*self.rhs,
    {
        &self.rhs
    }
}

#[derive(Debug)]
pub struct ReturnStatement {
    pub span: Span,
    pub expression: Box<Expression>,
}

impl ReturnStatement {
    pub fn new(span: Span, expression: Box<Expression>) -> (r: ReturnStatement)
        ensures
            r == (ReturnStatement { span, expression }),
    {
        ReturnStatement { span, expression }
    }

    pub fn span(&self) -> (r: Span)
        ensures
            r == self.span,
    {
        self.span
    }

    pub fn expression(&self) -> (r: &Expression)
        ensures
            r == &*self.expression,
    {
        &self.expression
    }
}

#[derive(Debug)]
pub enum Statement {
    LetStatement(LetStatement),
    Assignment(Assignment),
    ReturnStatement(ReturnStatement),
    Expression(Expression),
}

#[derive(Debug)]
pub struct BasicBlock {
    pub statements: Vec<Statement>,
}

impl BasicBlock {
    pub fn new(statements: Vec<Statement>) -> (r: BasicBlock)
        ensures
            r.statements@ == statements@,
    {
        BasicBlock { statements }
    }

    pub fn statements(&self) -> (r: &Vec<Statement>)
        ensures
            r == &self.statements,
    {
        &self.statements
    }
}

#[derive(Debug)]
pub struct WhileLoop {
    pub span: Span,
    pub condition: Expression,
    pub body: BasicBlock,
}

impl WhileLoop {
    pub fn new(span: Span, condition: Expression, body: BasicBlock) -> (r: WhileLoop)
        ensures
            r.span == span,
            r.condition == condition,
            r.body == body,
    {
        WhileLoop { span, condition, body }
    }

    pub fn span(&self) -> (r: Span)
        ensures
            r == self.span,
    {
        self.span
    }

    pub fn condition(&self) -> (r: &Expression)
        ensures
            r == &self.condition,
    {
        &self.condition
    }

    pub fn body(&self) -> (r: &BasicBlock)
        ensures
            r == &self.body,
    {
        &self.body
    }
}

#[derive(Debug)]
pub enum ControlFlow {
    BasicBlock(BasicBlock),
    WhileLoop(WhileLoop),
}

#[derive(Debug)]
pub struct FunctionBody {
    pub control_flow_structures: Vec<ControlFlow>,
}

impl FunctionBody {
    pub fn new(logic: Vec<ControlFlow>) -> (r: FunctionBody)
        ensures
            r.control_flow_structures@ == logic@,
    {
        FunctionBody { control_flow_structures: logic }
    }

    pub fn control_flow_structures(&self) -> (r: &Vec<ControlFlow>)
        ensures
            r == &self.control_flow_structures,
    {
        &self.control_flow_structures
    }
}


// ---------------------------------------------------------------------
// The mathematical model of the syntax tree: names and string literals
// become sequences of chars, and the children of an operator node sit
// in a sequence, which carries the recursion.

pub struct IdentifierModel {
    pub name: Seq<char>,
    pub span: Span,
}

pub struct LiteralModel {
    pub value: ValueModel,
    pub span: Span,
}

pub enum ExpressionModel {
    Literal(LiteralModel),
    Identifier(IdentifierModel),
    BinaryOperation(BinaryOperationModel),
    UnaryOperation(UnaryOperationModel),
}

/// The two children sit in `operands`: the left one first.
pub struct BinaryOperationModel {
    pub span: Span,
    pub operator_span: Span,
    pub operator: BinaryOperator,
    pub operands: Seq<ExpressionModel>,
}

impl BinaryOperationModel {
    pub open spec fn left(self) -> ExpressionModel {
        self.operands[0]
    }

    pub open spec fn right(self) -> ExpressionModel {
        self.operands[1]
    }
}

/// The one child sits in `operands`.
pub struct UnaryOperationModel {
    pub span: Span,
    pub operator_span: Span,
    pub operator: UnaryOperator,
    pub operands: Seq<ExpressionModel>,
}

impl UnaryOperationModel {
    pub open spec fn operand(self) -> ExpressionModel {
        self.operands[0]
    }
}

pub struct LetStatementModel {
    pub span: Span,
    pub identifier: IdentifierModel,
    pub operator_span: Span,
    pub expression: ExpressionModel,
}

pub struct AssignmentModel {
    pub span: Span,
    pub lhs: IdentifierModel,
    pub operator: AssignmentOperator,
    pub operator_span: Span,
    pub rhs: ExpressionModel,
}

pub struct ReturnStatementModel {
    pub span: Span,
    pub expression: ExpressionModel,
}

pub enum StatementModel {
    LetStatement(LetStatementModel),
    Assignment(AssignmentModel),
    ReturnStatement(ReturnStatementModel),
    Expression(ExpressionModel),
}

pub struct BasicBlockModel {
    pub statements: Seq<StatementModel>,
}

pub struct WhileLoopModel {
    pub span: Span,
    pub condition: ExpressionModel,
    pub body: BasicBlockModel,
}

pub enum ControlFlowModel {
    BasicBlock(BasicBlockModel),
    WhileLoop(WhileLoopModel),
}

pub struct FunctionBodyModel {
    pub control_flow_structures: Seq<ControlFlowModel>,
}

pub open spec fn spec_expression_model_span(e: ExpressionModel) -> Span {
    match e {
        ExpressionModel::Literal(l) => l.span,
        ExpressionModel::Identifier(i) => i.span,
        ExpressionModel::BinaryOperation(b) => b.span,
        ExpressionModel::UnaryOperation(u) => u.span,
    }
}

pub open spec fn spec_expr_model(e: Expression) -> ExpressionModel
    decreases e,
{
    match e {
        Expression::Literal(l) => ExpressionModel::Literal(
            LiteralModel { value: l.value@, span: l.span },
        ),
        Expression::Identifier(i) => ExpressionModel::Identifier(
            IdentifierModel { name: i.name@, span: i.span },
        ),
        Expression::BinaryOperation(b) => ExpressionModel::BinaryOperation(
            BinaryOperationModel {
                span: b.span,
                operator_span: b.operator_span,
                operator: b.operator,
                operands: seq![spec_expr_model(*b.left), spec_expr_model(*b.right)],
            },
        ),
        Expression::UnaryOperation(u) => ExpressionModel::UnaryOperation(
            UnaryOperationModel {
                span: u.span,
                operator_span: u.operator_span,
                operator: u.operator,
                operands: seq![spec_expr_model(*u.operand)],
            },
        ),
    }
}

/// A node's span survives into its model unchanged.
pub proof fn lemma_expr_span_view(e: Expression)
    ensures
        spec_expression_span(e) == spec_expression_model_span(e@),
{
    match e {
        Expression::Literal(_) => {},
        Expression::Identifier(_) => {},
        Expression::BinaryOperation(_) => {},
        Expression::UnaryOperation(_) => {},
    }
}

impl View for BinaryOperation {
    type V = BinaryOperationModel;

    open spec fn view(&self) -> BinaryOperationModel {
        BinaryOperationModel {
            span: self.span,
            operator_span: self.operator_span,
            operator: self.operator,
            operands: seq![spec_expr_model(*self.left), spec_expr_model(*self.right)],
        }
    }
}

impl View for UnaryOperation {
    type V = UnaryOperationModel;

    open spec fn view(&self) -> UnaryOperationModel {
        UnaryOperationModel {
            span: self.span,
            operator_span: self.operator_span,
            operator: self.operator,
            operands: seq![spec_expr_model(*self.operand)],
        }
    }
}

impl View for Expression {
    type V = ExpressionModel;

    open spec fn view(&self) -> ExpressionModel {
        spec_expr_model(*self)
    }
}

impl View for Identifier {
    type V = IdentifierModel;

    open spec fn view(&self) -> IdentifierModel {
        IdentifierModel { name: self.name@, span: self.span }
    }
}

impl View for LetStatement {
    type V = LetStatementModel;

    open spec fn view(&self) -> LetStatementModel {
        LetStatementModel {
            span: self.span,
            identifier: self.identifier@,
            operator_span: self.operator_span,
            expression: spec_expr_model(*self.expression),
        }
    }
}

impl View for Assignment {
    type V = AssignmentModel;

    open spec fn view(&self) -> AssignmentModel {
        AssignmentModel {
            span: self.span,
            lhs: self.lhs@,
            operator: self.operator,
            operator_span: self.operator_span,
            rhs: spec_expr_model(*self.rhs),
        }
    }
}

impl View for ReturnStatement {
    type V = ReturnStatementModel;

    open spec fn view(&self) -> ReturnStatementModel {
        ReturnStatementModel { span: self.span, expression: spec_expr_model(*self.expression) }
    }
}

impl View for Statement {
    type V = StatementModel;

    open spec fn view(&self) -> StatementModel {
        match self {
            Statement::LetStatement(l) => StatementModel::LetStatement(l@),
            Statement::Assignment(a) => StatementModel::Assignment(a@),
            Statement::ReturnStatement(r) => StatementModel::ReturnStatement(r@),
            Statement::Expression(e) => StatementModel::Expression(spec_expr_model(*e)),
        }
    }
}

impl View for BasicBlock {
    type V = BasicBlockModel;

    open spec fn view(&self) -> BasicBlockModel {
        BasicBlockModel {
            statements: self.statements@.map_values(|st: Statement| st@),
        }
    }
}

impl View for WhileLoop {
    type V = WhileLoopModel;

    open spec fn view(&self) -> WhileLoopModel {
        WhileLoopModel { span: self.span, condition: spec_expr_model(self.condition), body: self.body@ }
    }
}

impl View for ControlFlow {
    type V = ControlFlowModel;

    open spec fn view(&self) -> ControlFlowModel {
        match self {
            ControlFlow::BasicBlock(b) => ControlFlowModel::BasicBlock(b@),
            ControlFlow::WhileLoop(w) => ControlFlowModel::WhileLoop(w@),
        }
    }
}

impl View for FunctionBody {
    type V = FunctionBodyModel;

    open spec fn view(&self) -> FunctionBodyModel {
        FunctionBodyModel {
            control_flow_structures: self.control_flow_structures@.map_values(
                |cf: ControlFlow| cf@,
            ),
        }
    }
}

} // verus!
