use vstd::prelude::*;

use crate::compiler::language_components::{
    Assignment, AssignmentOperator, BasicBlock, BinaryOperation, BinaryOperator, ControlFlow,
    Expression, FunctionBody, Identifier, LetStatement, Literal, ReturnStatement, Span, Statement,
    UnaryOperation, UnaryOperator, Value, WhileLoop,
};
use crate::compiler::language_components::{
    AssignmentModel, BasicBlockModel, BinaryOperationModel, ControlFlowModel, ExpressionModel,
    FunctionBodyModel, IdentifierModel, LetStatementModel, LiteralModel, ReturnStatementModel,
    StatementModel, UnaryOperationModel, ValueModel, WhileLoopModel, lemma_expr_span_view,
    spec_expression_model_span,
};
use crate::float_bits::{float_bits_of_decimal, float_from_decimal, spec_plain_decimal};
use crate::textops::{
    chars_of, push_decimal, spec_char_byte_pos, spec_dec_digits, spec_utf8_width, utf8_width,
};
use vstd::string::StringExecFns;

verus! {

// The grammar of the language, parsed by hand below. Statements are
// separated by semicolons (a trailing one may be left out); `//` opens
// a comment that runs to the end of the line.
//
//   program    := ( while_loop | statement )*
//   while_loop := "while" expression "{" statement* "}"
//   statement  := "let" identifier "=" expression
//               | identifier ("=" | "+=" | "-=" | "*=" | "/=" | "%=") expression
//               | "return" expression
//               | expression
//
// A bare expression terminated by a semicolon is evaluated and its
// value discarded; one without a semicolon yields the value as the
// program's result, as an explicit `return` does.
//   expression := precedence climbing over, from loosest to tightest:
//                 "or"; "and"; "==" "!="; "<" "<=" ">" ">="; "+" "-";
//                 "*" "/" "%"; prefix "not" and "-"; atoms
//   atom       := number | string | char | "true" | "false"
//               | identifier | "(" expression ")"
//
// Numbers are runs of digits with optional underscores and at most one
// decimal point; one that fits no 64-bit integer is a float. Spans are
// byte ranges into the source text.


/// The model of a token.
#[verifier::ext_equal]
pub enum TokenKindModel {
    Name(Seq<char>),
    Number(ValueModel),
    Text(Seq<char>),
    Letter(char),
    Truth(bool),
    KwLet,
    KwWhile,
    KwReturn,
    KwNot,
    KwOr,
    KwAnd,
    Plus,
    Minus,
    Star,
    Slash,
    Percent,
    EqEq,
    NotEq,
    Lt,
    Le,
    Gt,
    Ge,
    Assign,
    PlusAssign,
    MinusAssign,
    StarAssign,
    SlashAssign,
    PercentAssign,
    LParen,
    RParen,
    LBrace,
    RBrace,
    Semicolon,
}

#[verifier::ext_equal]
pub struct TokenModel {
    pub kind: TokenKindModel,
    pub span: Span,
}

impl View for TokenKind {
    type V = TokenKindModel;

    open spec fn view(&self) -> TokenKindModel {
        match self {
            TokenKind::Name(n) => TokenKindModel::Name(n@),
            TokenKind::Number(v) => TokenKindModel::Number(v@),
            TokenKind::Text(t) => TokenKindModel::Text(t@),
            TokenKind::Letter(c) => TokenKindModel::Letter(*c),
            TokenKind::Truth(b) => TokenKindModel::Truth(*b),
            TokenKind::KwLet => TokenKindModel::KwLet,
            TokenKind::KwWhile => TokenKindModel::KwWhile,
            TokenKind::KwReturn => TokenKindModel::KwReturn,
            TokenKind::KwNot => TokenKindModel::KwNot,
            TokenKind::KwOr => TokenKindModel::KwOr,
            TokenKind::KwAnd => TokenKindModel::KwAnd,
            TokenKind::Plus => TokenKindModel::Plus,
            TokenKind::Minus => TokenKindModel::Minus,
            TokenKind::Star => TokenKindModel::Star,
            TokenKind::Slash => TokenKindModel::Slash,
            TokenKind::Percent => TokenKindModel::Percent,
            TokenKind::EqEq => TokenKindModel::EqEq,
            TokenKind::NotEq => TokenKindModel::NotEq,
            TokenKind::Lt => TokenKindModel::Lt,
            TokenKind::Le => TokenKindModel::Le,
            TokenKind::Gt => TokenKindModel::Gt,
            TokenKind::Ge => TokenKindModel::Ge,
            TokenKind::Assign => TokenKindModel::Assign,
            TokenKind::PlusAssign => TokenKindModel::PlusAssign,
            TokenKind::MinusAssign => TokenKindModel::MinusAssign,
            TokenKind::StarAssign => TokenKindModel::StarAssign,
            TokenKind::SlashAssign => TokenKindModel::SlashAssign,
            TokenKind::PercentAssign => TokenKindModel::PercentAssign,
            TokenKind::LParen => TokenKindModel::LParen,
            TokenKind::RParen => TokenKindModel::RParen,
            TokenKind::LBrace => TokenKindModel::LBrace,
            TokenKind::RBrace => TokenKindModel::RBrace,
            TokenKind::Semicolon => TokenKindModel::Semicolon,
        }
    }
}

impl View for Token {
    type V = TokenModel;

    open spec fn view(&self) -> TokenModel {
        TokenModel { kind: self.kind@, span: self.span }
    }
}


/// The models of a token vector.
pub open spec fn spec_tokens_view(ts: Seq<Token>) -> Seq<TokenModel> {
    ts.map_values(|t: Token| t@)
}


/// The models of a statement vector.
pub open spec fn spec_stmts_view(v: Seq<Statement>) -> Seq<StatementModel> {
    v.map_values(|st: Statement| st@)
}

/// The models of a control-flow vector.
pub open spec fn spec_units_view(v: Seq<ControlFlow>) -> Seq<ControlFlowModel> {
    v.map_values(|cf: ControlFlow| cf@)
}

/// The text of a parse-error report.
pub open spec fn spec_parse_error_text(at: int, message: Seq<char>) -> Seq<char> {
    "Parse error at byte "@ + spec_dec_digits(if at >= 0 {
        at as nat
    } else {
        0
    }) + ": "@ + message
}

/// A byte offset clamped into `usize`.
pub open spec fn spec_span_at(b: int) -> usize {
    if b > usize::MAX {
        usize::MAX
    } else if b < 0 {
        0
    } else {
        b as usize
    }
}

pub open spec fn spec_is_digit(c: char) -> bool {
    '0' <= c <= '9'
}

pub open spec fn spec_digit_val(c: char) -> nat {
    if spec_is_digit(c) {
        (c as u32 - 48) as nat
    } else {
        0
    }
}

/// The numeric value of a run of decimal digits.
pub open spec fn spec_digits_nat(d: Seq<char>) -> nat
    decreases d.len(),
{
    if d.len() == 0 {
        0
    } else {
        10 * spec_digits_nat(d.drop_last()) + spec_digit_val(d.last())
    }
}

/// The value of a cleaned number literal: a 64-bit integer where the
/// digits fit one and no decimal point was seen, else the nearest
/// binary64 float of the literal, else a report of a malformed number.
pub open spec fn spec_number_value(cleaned: Seq<char>, has_dot: bool, at: int) -> Result<
    ValueModel,
    Seq<char>,
> {
    if !has_dot && spec_digits_nat(cleaned) <= i64::MAX {
        Ok(ValueModel::Int(spec_digits_nat(cleaned) as i64))
    } else {
        match float_bits_of_decimal(cleaned) {
            Some(bits) => Ok(ValueModel::Float(bits)),
            None => Err(spec_parse_error_text(at, "malformed number"@)),
        }
    }
}

/// The index after a comment that starts at `i`: the next newline, or
/// the end of the text.
pub open spec fn spec_skip_comment(s: Seq<char>, i: int) -> int
    decreases s.len() - i,
{
    if i < 0 || i >= s.len() || s[i] == '\n' {
        i
    } else {
        spec_skip_comment(s, i + 1)
    }
}

proof fn lemma_skip_comment_ge(s: Seq<char>, i: int)
    ensures
        spec_skip_comment(s, i) >= i,
    decreases s.len() - i,
{
    if !(i < 0 || i >= s.len() || s[i] == '\n') {
        lemma_skip_comment_ge(s, i + 1);
    }
}

/// Scanning the tail of a number literal from `i`: yields the end
/// index, whether a decimal point was seen, and the digits (dots kept,
/// underscores dropped).
pub open spec fn spec_scan_number(s: Seq<char>, i: int, has_dot: bool, cleaned: Seq<char>) -> (
    int,
    bool,
    Seq<char>,
)
    decreases s.len() - i,
{
    if i < 0 || i >= s.len() {
        (i, has_dot, cleaned)
    } else if spec_is_digit(s[i]) {
        spec_scan_number(s, i + 1, has_dot, cleaned.push(s[i]))
    } else if s[i] == '_' {
        spec_scan_number(s, i + 1, has_dot, cleaned)
    } else if s[i] == '.' && !has_dot && i + 1 < s.len() && spec_is_digit(s[i + 1]) {
        spec_scan_number(s, i + 2, true, cleaned.push('.').push(s[i + 1]))
    } else {
        (i, has_dot, cleaned)
    }
}

proof fn lemma_scan_number_ge(s: Seq<char>, i: int, has_dot: bool, cleaned: Seq<char>)
    ensures
        spec_scan_number(s, i, has_dot, cleaned).0 >= i,
    decreases s.len() - i,
{
    if 0 <= i < s.len() {
        if spec_is_digit(s[i]) {
            lemma_scan_number_ge(s, i + 1, has_dot, cleaned.push(s[i]));
        } else if s[i] == '_' {
            lemma_scan_number_ge(s, i + 1, has_dot, cleaned);
        } else if s[i] == '.' && !has_dot && i + 1 < s.len() && spec_is_digit(s[i + 1]) {
            lemma_scan_number_ge(s, i + 2, true, cleaned.push('.').push(s[i + 1]));
        }
    }
}

pub open spec fn spec_is_name_start(c: char) -> bool {
    ('a' <= c <= 'z') || ('A' <= c <= 'Z') || c == '_'
}

pub open spec fn spec_is_name_part(c: char) -> bool {
    ('a' <= c <= 'z') || ('A' <= c <= 'Z') || ('0' <= c <= '9') || c == '_'
}

/// Scanning the tail of a name from `i`.
pub open spec fn spec_scan_name(s: Seq<char>, i: int, name: Seq<char>) -> (int, Seq<char>)
    decreases s.len() - i,
{
    if 0 <= i < s.len() && spec_is_name_part(s[i]) {
        spec_scan_name(s, i + 1, name.push(s[i]))
    } else {
        (i, name)
    }
}

proof fn lemma_scan_name_ge(s: Seq<char>, i: int, name: Seq<char>)
    ensures
        spec_scan_name(s, i, name).0 >= i,
    decreases s.len() - i,
{
    if 0 <= i < s.len() && spec_is_name_part(s[i]) {
        lemma_scan_name_ge(s, i + 1, name.push(s[i]));
    }
}

/// Scanning a string literal's contents from `i` up to the closing
/// quote or the end of the text.
pub open spec fn spec_scan_text(s: Seq<char>, i: int, text: Seq<char>) -> (int, Seq<char>)
    decreases s.len() - i,
{
    if 0 <= i < s.len() && s[i] != '"' {
        spec_scan_text(s, i + 1, text.push(s[i]))
    } else {
        (i, text)
    }
}

proof fn lemma_scan_text_ge(s: Seq<char>, i: int, text: Seq<char>)
    ensures
        spec_scan_text(s, i, text).0 >= i,
    decreases s.len() - i,
{
    if 0 <= i < s.len() && s[i] != '"' {
        lemma_scan_text_ge(s, i + 1, text.push(s[i]));
    }
}

/// The token a scanned word makes: a keyword, a boolean literal, or a
/// plain name.
pub open spec fn spec_name_kind(name: Seq<char>) -> TokenKindModel {
    if name == "let"@ {
        TokenKindModel::KwLet
    } else if name == "while"@ {
        TokenKindModel::KwWhile
    } else if name == "return"@ {
        TokenKindModel::KwReturn
    } else if name == "not"@ {
        TokenKindModel::KwNot
    } else if name == "or"@ {
        TokenKindModel::KwOr
    } else if name == "and"@ {
        TokenKindModel::KwAnd
    } else if name == "true"@ {
        TokenKindModel::Truth(true)
    } else if name == "false"@ {
        TokenKindModel::Truth(false)
    } else {
        TokenKindModel::Name(name)
    }
}

/// A span between two character indices, as clamped byte offsets.
pub open spec fn spec_span(s: Seq<char>, from: int, to: int) -> Span {
    Span {
        start: spec_span_at(spec_char_byte_pos(s, from)),
        end: spec_span_at(spec_char_byte_pos(s, to)),
    }
}

/// The token of a one- or two-character operator at `i`, with how many
/// characters it takes; `None` for a character no token starts with.
pub open spec fn spec_operator_kind(s: Seq<char>, i: int) -> Option<(TokenKindModel, int)> {
    let c = s[i];
    let two = if i + 1 < s.len() {
        Some(s[i + 1])
    } else {
        None
    };
    if c == '=' && two == Some('=') {
        Some((TokenKindModel::EqEq, 2))
    } else if c == '!' && two == Some('=') {
        Some((TokenKindModel::NotEq, 2))
    } else if c == '<' && two == Some('=') {
        Some((TokenKindModel::Le, 2))
    } else if c == '>' && two == Some('=') {
        Some((TokenKindModel::Ge, 2))
    } else if c == '+' && two == Some('=') {
        Some((TokenKindModel::PlusAssign, 2))
    } else if c == '-' && two == Some('=') {
        Some((TokenKindModel::MinusAssign, 2))
    } else if c == '*' && two == Some('=') {
        Some((TokenKindModel::StarAssign, 2))
    } else if c == '/' && two == Some('=') {
        Some((TokenKindModel::SlashAssign, 2))
    } else if c == '%' && two == Some('=') {
        Some((TokenKindModel::PercentAssign, 2))
    } else if c == '=' {
        Some((TokenKindModel::Assign, 1))
    } else if c == '<' {
        Some((TokenKindModel::Lt, 1))
    } else if c == '>' {
        Some((TokenKindModel::Gt, 1))
    } else if c == '+' {
        Some((TokenKindModel::Plus, 1))
    } else if c == '-' {
        Some((TokenKindModel::Minus, 1))
    } else if c == '*' {
        Some((TokenKindModel::Star, 1))
    } else if c == '/' {
        Some((TokenKindModel::Slash, 1))
    } else if c == '%' {
        Some((TokenKindModel::Percent, 1))
    } else if c == '(' {
        Some((TokenKindModel::LParen, 1))
    } else if c == ')' {
        Some((TokenKindModel::RParen, 1))
    } else if c == '{' {
        Some((TokenKindModel::LBrace, 1))
    } else if c == '}' {
        Some((TokenKindModel::RBrace, 1))
    } else if c == ';' {
        Some((TokenKindModel::Semicolon, 1))
    } else {
        None
    }
}


proof fn lemma_skip_comment_le(s: Seq<char>, i: int)
    requires
        i <= s.len(),
    ensures
        spec_skip_comment(s, i) <= s.len(),
    decreases s.len() - i,
{
    if !(i < 0 || i >= s.len() || s[i] == '\n') {
        lemma_skip_comment_le(s, i + 1);
    }
}

proof fn lemma_scan_number_le(s: Seq<char>, i: int, has_dot: bool, cleaned: Seq<char>)
    requires
        i <= s.len(),
    ensures
        spec_scan_number(s, i, has_dot, cleaned).0 <= s.len(),
    decreases s.len() - i,
{
    if 0 <= i < s.len() {
        if spec_is_digit(s[i]) {
            lemma_scan_number_le(s, i + 1, has_dot, cleaned.push(s[i]));
        } else if s[i] == '_' {
            lemma_scan_number_le(s, i + 1, has_dot, cleaned);
        } else if s[i] == '.' && !has_dot && i + 1 < s.len() && spec_is_digit(s[i + 1]) {
            lemma_scan_number_le(s, i + 2, true, cleaned.push('.').push(s[i + 1]));
        }
    }
}

proof fn lemma_scan_name_le(s: Seq<char>, i: int, name: Seq<char>)
    requires
        i <= s.len(),
    ensures
        spec_scan_name(s, i, name).0 <= s.len(),
    decreases s.len() - i,
{
    if 0 <= i < s.len() && spec_is_name_part(s[i]) {
        lemma_scan_name_le(s, i + 1, name.push(s[i]));
    }
}

proof fn lemma_scan_text_le(s: Seq<char>, i: int, text: Seq<char>)
    requires
        i <= s.len(),
    ensures
        spec_scan_text(s, i, text).0 <= s.len(),
    decreases s.len() - i,
{
    if 0 <= i < s.len() && s[i] != '"' {
        lemma_scan_text_le(s, i + 1, text.push(s[i]));
    }
}

/// Splitting the text into tokens, from character `i` on, with the
/// tokens made so far.
pub open spec fn spec_tokenize_from(s: Seq<char>, i: int, acc: Seq<TokenModel>) -> Result<
    Seq<TokenModel>,
    Seq<char>,
>
    decreases s.len() - i,
    via spec_tokenize_from_decreases
{
    if i < 0 || i >= s.len() {
        Ok(acc)
    } else {
        let c = s[i];
        if c == ' ' || c == '\t' || c == '\r' || c == '\n' {
            spec_tokenize_from(s, i + 1, acc)
        } else if c == '/' && i + 1 < s.len() && s[i + 1] == '/' {
            spec_tokenize_from(s, spec_skip_comment(s, i + 2), acc)
        } else if spec_is_digit(c) {
            let scanned = spec_scan_number(s, i + 1, false, seq![c]);
            match spec_number_value(scanned.2, scanned.1, spec_char_byte_pos(s, i)) {
                Ok(value) => spec_tokenize_from(
                    s,
                    scanned.0,
                    acc.push(
                        TokenModel {
                            kind: TokenKindModel::Number(value),
                            span: spec_span(s, i, scanned.0),
                        },
                    ),
                ),
                Err(msg) => Err(msg),
            }
        } else if spec_is_name_start(c) {
            let scanned = spec_scan_name(s, i + 1, seq![c]);
            spec_tokenize_from(
                s,
                scanned.0,
                acc.push(
                    TokenModel { kind: spec_name_kind(scanned.1), span: spec_span(s, i, scanned.0) },
                ),
            )
        } else if c == '"' {
            let scanned = spec_scan_text(s, i + 1, Seq::<char>::empty());
            if scanned.0 >= s.len() {
                Err(spec_parse_error_text(
                    spec_char_byte_pos(s, i),
                    "unterminated string literal"@,
                ))
            } else {
                spec_tokenize_from(
                    s,
                    scanned.0 + 1,
                    acc.push(
                        TokenModel {
                            kind: TokenKindModel::Text(scanned.1),
                            span: spec_span(s, i, scanned.0 + 1),
                        },
                    ),
                )
            }
        } else if c == '\'' {
            if s.len() - i < 3 || s[i + 2] != '\'' {
                Err(spec_parse_error_text(
                    spec_char_byte_pos(s, i),
                    "malformed character literal"@,
                ))
            } else {
                spec_tokenize_from(
                    s,
                    i + 3,
                    acc.push(
                        TokenModel {
                            kind: TokenKindModel::Letter(s[i + 1]),
                            span: spec_span(s, i, i + 3),
                        },
                    ),
                )
            }
        } else {
            match spec_operator_kind(s, i) {
                Some((kind, width)) => spec_tokenize_from(
                    s,
                    i + width,
                    acc.push(TokenModel { kind, span: spec_span(s, i, i + width) }),
                ),
                None => Err(spec_parse_error_text(
                    spec_char_byte_pos(s, i),
                    "unexpected character"@,
                )),
            }
        }
    }
}

#[via_fn]
proof fn spec_tokenize_from_decreases(s: Seq<char>, i: int, acc: Seq<TokenModel>) {
    if 0 <= i < s.len() {
        lemma_skip_comment_ge(s, i + 2);
        lemma_scan_number_ge(s, i + 1, false, seq![s[i]]);
        lemma_scan_name_ge(s, i + 1, seq![s[i]]);
        lemma_scan_text_ge(s, i + 1, Seq::<char>::empty());
        if i + 2 <= s.len() {
            lemma_skip_comment_le(s, i + 2);
        }
        lemma_scan_number_le(s, i + 1, false, seq![s[i]]);
        lemma_scan_name_le(s, i + 1, seq![s[i]]);
        lemma_scan_text_le(s, i + 1, Seq::<char>::empty());
    }
}

/// Splitting the whole text into tokens.
pub open spec fn spec_tokenize(s: Seq<char>) -> Result<Seq<TokenModel>, Seq<char>> {
    spec_tokenize_from(s, 0, Seq::<TokenModel>::empty())
}

/// One token of the source text.
#[derive(Debug)]
pub struct Token {
    pub kind: TokenKind,
    pub span: Span,
}

#[derive(Debug)]
pub enum TokenKind {
    Name(String),
    Number(Value),
    Text(String),
    Letter(char),
    Truth(bool),
    KwLet,
    KwWhile,
    KwReturn,
    KwNot,
    KwOr,
    KwAnd,
    Plus,
    Minus,
    Star,
    Slash,
    Percent,
    EqEq,
    NotEq,
    Lt,
    Le,
    Gt,
    Ge,
    Assign,
    PlusAssign,
    MinusAssign,
    StarAssign,
    SlashAssign,
    PercentAssign,
    LParen,
    RParen,
    LBrace,
    RBrace,
    Semicolon,
}


/// The error text of a state the executable parser never reaches; its
/// guards in the spec keep the recursion well founded on junk indices.
pub open spec fn spec_stalled() -> Seq<char> {
    spec_parse_error_text(0, "parser stalled"@)
}

pub open spec fn spec_level_operator(kind: TokenKindModel, level: int) -> Option<BinaryOperator> {
    match kind {
        TokenKindModel::KwOr => if level == 0 {
            Some(BinaryOperator::Or)
        } else {
            None
        },
        TokenKindModel::KwAnd => if level == 1 {
            Some(BinaryOperator::And)
        } else {
            None
        },
        TokenKindModel::EqEq => if level == 2 {
            Some(BinaryOperator::Equal)
        } else {
            None
        },
        TokenKindModel::NotEq => if level == 2 {
            Some(BinaryOperator::NotEqual)
        } else {
            None
        },
        TokenKindModel::Lt => if level == 3 {
            Some(BinaryOperator::LessThan)
        } else {
            None
        },
        TokenKindModel::Le => if level == 3 {
            Some(BinaryOperator::LessEq)
        } else {
            None
        },
        TokenKindModel::Gt => if level == 3 {
            Some(BinaryOperator::GreaterThan)
        } else {
            None
        },
        TokenKindModel::Ge => if level == 3 {
            Some(BinaryOperator::GreaterEq)
        } else {
            None
        },
        TokenKindModel::Plus => if level == 4 {
            Some(BinaryOperator::Add)
        } else {
            None
        },
        TokenKindModel::Minus => if level == 4 {
            Some(BinaryOperator::Sub)
        } else {
            None
        },
        TokenKindModel::Star => if level == 5 {
            Some(BinaryOperator::Mul)
        } else {
            None
        },
        TokenKindModel::Slash => if level == 5 {
            Some(BinaryOperator::Div)
        } else {
            None
        },
        TokenKindModel::Percent => if level == 5 {
            Some(BinaryOperator::Mod)
        } else {
            None
        },
        _ => None,
    }
}

pub open spec fn spec_assignment_operator(kind: TokenKindModel) -> Option<AssignmentOperator> {
    match kind {
        TokenKindModel::Assign => Some(AssignmentOperator::Basic),
        TokenKindModel::PlusAssign => Some(AssignmentOperator::Add),
        TokenKindModel::MinusAssign => Some(AssignmentOperator::Sub),
        TokenKindModel::StarAssign => Some(AssignmentOperator::Mul),
        TokenKindModel::SlashAssign => Some(AssignmentOperator::Div),
        TokenKindModel::PercentAssign => Some(AssignmentOperator::Mod),
        _ => None,
    }
}

/// Parsing one expression from token `idx` at a precedence level:
/// yields the tree and the index after it.
pub open spec fn spec_parse_expression(ts: Seq<TokenModel>, idx: int, level: int) -> Result<
    (ExpressionModel, int),
    Seq<char>,
>
    decreases ts.len() - idx, 8 - level, 2int,
{
    if idx < 0 || idx > ts.len() || level < 0 || level > 6 {
        Err(spec_stalled())
    } else if level < 6 {
        match spec_parse_expression(ts, idx, level + 1) {
            Ok((left, j)) => {
                if idx < j <= ts.len() {
                    spec_parse_binary_chain(ts, level, left, j)
                } else {
                    Err(spec_stalled())
                }
            },
            Err(m) => Err(m),
        }
    } else {
        if 0 <= idx < ts.len() && (ts[idx].kind is KwNot || ts[idx].kind is Minus) {
            let operator = if ts[idx].kind is KwNot {
                UnaryOperator::Not
            } else {
                UnaryOperator::Neg
            };
            let operator_span = ts[idx].span;
            match spec_parse_expression(ts, idx + 1, 6) {
                Ok((operand, j)) => Ok(
                    (
                        ExpressionModel::UnaryOperation(
                            UnaryOperationModel {
                                span: Span {
                                    start: operator_span.start,
                                    end: spec_expression_model_span(operand).end,
                                },
                                operator_span,
                                operator,
                                operands: seq![operand],
                            },
                        ),
                        j,
                    ),
                ),
                Err(m) => Err(m),
            }
        } else {
            spec_parse_atom(ts, idx)
        }
    }
}

/// Folding a run of same-level binary operators onto `left`, as the
/// grammar's left associativity demands.
pub open spec fn spec_parse_binary_chain(
    ts: Seq<TokenModel>,
    level: int,
    left: ExpressionModel,
    j: int,
) -> Result<(ExpressionModel, int), Seq<char>>
    decreases ts.len() - j, 8 - level, 1int,
{
    if level < 0 || j < 0 {
        Err(spec_stalled())
    } else if 0 <= j < ts.len() && spec_level_operator(ts[j].kind, level) is Some {
        let operator = spec_level_operator(ts[j].kind, level)->0;
        let operator_span = ts[j].span;
        match spec_parse_expression(ts, j + 1, level + 1) {
            Ok((right, j2)) => {
                if j < j2 <= ts.len() {
                    spec_parse_binary_chain(
                        ts,
                        level,
                        ExpressionModel::BinaryOperation(
                            BinaryOperationModel {
                                span: Span {
                                    start: spec_expression_model_span(left).start,
                                    end: spec_expression_model_span(right).end,
                                },
                                operator_span,
                                operator,
                                operands: seq![left, right],
                            },
                        ),
                        j2,
                    )
                } else {
                    Err(spec_stalled())
                }
            },
            Err(m) => Err(m),
        }
    } else {
        Ok((left, j))
    }
}

/// Parsing an atom: a literal, a name, or a parenthesised expression.
pub open spec fn spec_parse_atom(ts: Seq<TokenModel>, idx: int) -> Result<
    (ExpressionModel, int),
    Seq<char>,
>
    decreases ts.len() - idx, 0int, 0int,
{
    if !(0 <= idx < ts.len()) {
        Err(spec_parse_error_text(0, "expected an expression, found the end of the input"@))
    } else {
        let span = ts[idx].span;
        match ts[idx].kind {
            TokenKindModel::Number(value) => Ok(
                (ExpressionModel::Literal(LiteralModel { value, span }), idx + 1),
            ),
            TokenKindModel::Text(text) => Ok(
                (
                    ExpressionModel::Literal(LiteralModel { value: ValueModel::Str(text), span }),
                    idx + 1,
                ),
            ),
            TokenKindModel::Letter(letter) => Ok(
                (
                    ExpressionModel::Literal(
                        LiteralModel { value: ValueModel::Char(letter), span },
                    ),
                    idx + 1,
                ),
            ),
            TokenKindModel::Truth(truth) => Ok(
                (
                    ExpressionModel::Literal(
                        LiteralModel { value: ValueModel::Bool(truth), span },
                    ),
                    idx + 1,
                ),
            ),
            TokenKindModel::Name(name) => Ok(
                (ExpressionModel::Identifier(IdentifierModel { name, span }), idx + 1),
            ),
            TokenKindModel::LParen => match spec_parse_expression(ts, idx + 1, 0) {
                Ok((inner, j)) => {
                    if 0 <= j < ts.len() && ts[j].kind is RParen {
                        Ok((inner, j + 1))
                    } else {
                        Err(spec_parse_error_text(
                            span.start as int,
                            "expected a closing parenthesis"@,
                        ))
                    }
                },
                Err(m) => Err(m),
            },
            _ => Err(spec_parse_error_text(span.start as int, "expected an expression"@)),
        }
    }
}

/// A trailing semicolon, consumed where present.
pub open spec fn spec_eat_semicolon(ts: Seq<TokenModel>, j: int) -> int {
    if 0 <= j < ts.len() && ts[j].kind is Semicolon {
        j + 1
    } else {
        j
    }
}

/// A parsed bare expression as a statement: with a semicolon its value
/// is discarded, without one it yields the program's result.
pub open spec fn spec_expression_statement(
    ts: Seq<TokenModel>,
    em: ExpressionModel,
    j: int,
) -> (StatementModel, int) {
    if 0 <= j < ts.len() && ts[j].kind is Semicolon {
        (StatementModel::Expression(em), j + 1)
    } else {
        (
            StatementModel::ReturnStatement(
                ReturnStatementModel { span: spec_expression_model_span(em), expression: em },
            ),
            j,
        )
    }
}

/// Parsing one statement from token `idx`.
pub open spec fn spec_parse_statement(ts: Seq<TokenModel>, idx: int) -> Result<
    (StatementModel, int),
    Seq<char>,
> {
    if !(0 <= idx < ts.len()) {
        Err(spec_stalled())
    } else {
        let span_start = ts[idx].span;
        match ts[idx].kind {
            TokenKindModel::KwLet => {
                if idx + 1 >= ts.len() {
                    Err(spec_parse_error_text(span_start.start as int, "expected a name after 'let'"@))
                } else {
                    let identifier = match ts[idx + 1].kind {
                        TokenKindModel::Name(name) => Some(
                            IdentifierModel { name, span: ts[idx + 1].span },
                        ),
                        TokenKindModel::KwLet => Some(
                            IdentifierModel { name: "let"@, span: ts[idx + 1].span },
                        ),
                        TokenKindModel::KwReturn => Some(
                            IdentifierModel { name: "return"@, span: ts[idx + 1].span },
                        ),
                        _ => None,
                    };
                    match identifier {
                        None => Err(spec_parse_error_text(
                            span_start.start as int,
                            "expected a name after 'let'"@,
                        )),
                        Some(identifier) => {
                            if idx + 2 >= ts.len() || !(ts[idx + 2].kind is Assign) {
                                Err(spec_parse_error_text(
                                    span_start.start as int,
                                    "expected '=' in 'let'"@,
                                ))
                            } else {
                                let operator_span = ts[idx + 2].span;
                                match spec_parse_expression(ts, idx + 3, 0) {
                                    Ok((expression, j)) => Ok(
                                        (
                                            StatementModel::LetStatement(
                                                LetStatementModel {
                                                    span: Span {
                                                        start: span_start.start,
                                                        end: spec_expression_model_span(
                                                            expression,
                                                        ).end,
                                                    },
                                                    identifier,
                                                    operator_span,
                                                    expression,
                                                },
                                            ),
                                            spec_eat_semicolon(ts, j),
                                        ),
                                    ),
                                    Err(m) => Err(m),
                                }
                            }
                        },
                    }
                }
            },
            TokenKindModel::KwReturn => match spec_parse_expression(ts, idx + 1, 0) {
                Ok((expression, j)) => Ok(
                    (
                        StatementModel::ReturnStatement(
                            ReturnStatementModel {
                                span: Span {
                                    start: span_start.start,
                                    end: spec_expression_model_span(expression).end,
                                },
                                expression,
                            },
                        ),
                        spec_eat_semicolon(ts, j),
                    ),
                ),
                Err(m) => Err(m),
            },
            TokenKindModel::Name(name) => {
                let next_assign: Option<AssignmentOperator> = if idx + 1 < ts.len() {
                    spec_assignment_operator(ts[idx + 1].kind)
                } else {
                    None
                };
                match next_assign {
                    Some(operator) => {
                        let lhs = IdentifierModel { name, span: span_start };
                        let operator_span = ts[idx + 1].span;
                        match spec_parse_expression(ts, idx + 2, 0) {
                            Ok((rhs, j)) => Ok(
                                (
                                    StatementModel::Assignment(
                                        AssignmentModel {
                                            span: Span {
                                                start: span_start.start,
                                                end: spec_expression_model_span(rhs).end,
                                            },
                                            lhs,
                                            operator,
                                            operator_span,
                                            rhs,
                                        },
                                    ),
                                    spec_eat_semicolon(ts, j),
                                ),
                            ),
                            Err(m) => Err(m),
                        }
                    },
                    None => match spec_parse_expression(ts, idx, 0) {
                        Ok((em, j)) => Ok(spec_expression_statement(ts, em, j)),
                        Err(m) => Err(m),
                    },
                }
            },
            _ => match spec_parse_expression(ts, idx, 0) {
                Ok((em, j)) => Ok(spec_expression_statement(ts, em, j)),
                Err(m) => Err(m),
            },
        }
    }
}

/// Parsing the statements of a while loop's body up to its closing
/// brace.
pub open spec fn spec_parse_block(
    ts: Seq<TokenModel>,
    j: int,
    acc: Seq<StatementModel>,
) -> Result<(Seq<StatementModel>, int), Seq<char>>
    decreases ts.len() - j,
{
    if !(0 <= j < ts.len()) || ts[j].kind is RBrace {
        Ok((acc, j))
    } else {
        match spec_parse_statement(ts, j) {
            Ok((st, j2)) => {
                if j < j2 <= ts.len() {
                    spec_parse_block(ts, j2, acc.push(st))
                } else {
                    Err(spec_stalled())
                }
            },
            Err(m) => Err(m),
        }
    }
}

/// Parsing a while loop from its keyword.
pub open spec fn spec_parse_while(ts: Seq<TokenModel>, idx: int) -> Result<
    (WhileLoopModel, int),
    Seq<char>,
> {
    if !(0 <= idx < ts.len()) {
        Err(spec_stalled())
    } else {
        let kw_span = ts[idx].span;
        match spec_parse_expression(ts, idx + 1, 0) {
            Ok((condition, j)) => {
                if j >= ts.len() || !(ts[j].kind is LBrace) {
                    Err(spec_parse_error_text(
                        kw_span.start as int,
                        "expected '{' after the condition"@,
                    ))
                } else {
                    match spec_parse_block(ts, j + 1, Seq::<StatementModel>::empty()) {
                        Ok((statements, j2)) => {
                            if j2 >= ts.len() {
                                Err(spec_parse_error_text(
                                    kw_span.start as int,
                                    "expected '}' to close the loop body"@,
                                ))
                            } else {
                                Ok(
                                    (
                                        WhileLoopModel {
                                            span: Span {
                                                start: kw_span.start,
                                                end: ts[j2].span.end,
                                            },
                                            condition,
                                            body: BasicBlockModel { statements },
                                        },
                                        j2 + 1,
                                    ),
                                )
                            }
                        },
                        Err(m) => Err(m),
                    }
                }
            },
            Err(m) => Err(m),
        }
    }
}

/// A run of pending statements closed off into a basic block.
pub open spec fn spec_flush_pending(
    units: Seq<ControlFlowModel>,
    pending: Seq<StatementModel>,
) -> Seq<ControlFlowModel> {
    if pending.len() > 0 {
        units.push(ControlFlowModel::BasicBlock(BasicBlockModel { statements: pending }))
    } else {
        units
    }
}

/// Parsing the whole program: while loops and basic blocks of
/// consecutive statements, in order.
pub open spec fn spec_parse_program(
    ts: Seq<TokenModel>,
    i: int,
    pending: Seq<StatementModel>,
    units: Seq<ControlFlowModel>,
) -> Result<FunctionBodyModel, Seq<char>>
    decreases ts.len() - i,
{
    if !(0 <= i < ts.len()) {
        Ok(FunctionBodyModel { control_flow_structures: spec_flush_pending(units, pending) })
    } else if ts[i].kind is KwWhile {
        match spec_parse_while(ts, i) {
            Ok((w, j)) => {
                if i < j <= ts.len() {
                    spec_parse_program(
                        ts,
                        j,
                        Seq::<StatementModel>::empty(),
                        spec_flush_pending(units, pending).push(ControlFlowModel::WhileLoop(w)),
                    )
                } else {
                    Err(spec_stalled())
                }
            },
            Err(m) => Err(m),
        }
    } else {
        match spec_parse_statement(ts, i) {
            Ok((st, j)) => {
                if i < j <= ts.len() {
                    spec_parse_program(ts, j, pending.push(st), units)
                } else {
                    Err(spec_stalled())
                }
            },
            Err(m) => Err(m),
        }
    }
}

/// The parse of a whole source text.
pub open spec fn spec_parse(s: Seq<char>) -> Result<FunctionBodyModel, Seq<char>> {
    match spec_tokenize(s) {
        Ok(ts) => spec_parse_program(
            ts,
            0,
            Seq::<StatementModel>::empty(),
            Seq::<ControlFlowModel>::empty(),
        ),
        Err(m) => Err(m),
    }
}

fn is_digit(c: char) -> (r: bool)
    ensures
        r == ('0' <= c <= '9'),
{
    '0' <= c && c <= '9'
}

fn is_name_start(c: char) -> (r: bool)
    ensures
        r == spec_is_name_start(c),
{
    ('a' <= c && c <= 'z') || ('A' <= c && c <= 'Z') || c == '_'
}

fn is_name_part(c: char) -> (r: bool)
    ensures
        r == spec_is_name_part(c),
{
    ('a' <= c && c <= 'z') || ('A' <= c && c <= 'Z') || ('0' <= c && c <= '9') || c == '_'
}

/// A byte offset clamped into `usize`; the clamp is never reached for
/// a string that exists in memory.
fn span_pos(bp: u128) -> (r: usize)
    ensures
        r == spec_span_at(bp as int),
{
    if bp > (usize::MAX as u128) {
        usize::MAX
    } else {
        bp as usize
    }
}

/// The parse-error report: the offending byte offset and a short
/// description.
fn parse_error(at: u128, message: &str) -> (r: String)
    ensures
        r@ == spec_parse_error_text(at as int, message@),
{
    let mut s = String::new();
    s.append("Parse error at byte ");
    push_decimal(&mut s, at);
    s.append(": ");
    s.append(message);
    proof {
        assert(s@ =~= spec_parse_error_text(at as int, message@));
    }
    s
}


proof fn lemma_digits_take_step(d: Seq<char>, i: int)
    requires
        0 <= i < d.len(),
    ensures
        spec_digits_nat(d.take(i + 1)) == 10 * spec_digits_nat(d.take(i)) + spec_digit_val(d[i]),
{
    assert(d.take(i + 1).drop_last() =~= d.take(i));
    assert(d.take(i + 1).last() == d[i]);
}

proof fn lemma_digits_take_le(d: Seq<char>, i: int)
    requires
        0 <= i <= d.len(),
    ensures
        spec_digits_nat(d.take(i)) <= spec_digits_nat(d),
    decreases d.len() - i,
{
    if i < d.len() {
        lemma_digits_take_step(d, i);
        lemma_digits_take_le(d, i + 1);
    } else {
        assert(d.take(i) =~= d);
    }
}

/// Parse a cleaned number literal (digits, at most one dot) into a
/// value: a 64-bit integer where the digits fit one and no decimal
/// point was seen, else a float.
#[verifier::loop_isolation(false)]
fn number_value(cleaned: &String, has_dot: bool, at: u128) -> (r: Result<Value, String>)
    requires
        spec_plain_decimal(cleaned@),
        !has_dot ==> forall|k: int| 0 <= k < cleaned@.len() ==> spec_is_digit(#[trigger] cleaned@[k]),
    ensures
        match spec_number_value(cleaned@, has_dot, at as int) {
            Ok(vm) => r matches Ok(v) && v@ == vm,
            Err(m) => r matches Err(e) && e@ == m,
        },
{
    let digits = chars_of(cleaned.as_str());
    if !has_dot {
        let mut acc: i64 = 0;
        let mut i: usize = 0;
        let n = digits.len();
        let mut overflowed = false;
        while i < n
            invariant
                i <= n,
                n == digits@.len(),
                digits@ == cleaned@,
                acc >= 0,
                !overflowed ==> acc == spec_digits_nat(cleaned@.take(i as int)),
                overflowed ==> spec_digits_nat(cleaned@) > i64::MAX,
            decreases n - i,
        {
            let c = digits[i];
            let d: i64 = if c == '0' {
                0
            } else if c == '1' {
                1
            } else if c == '2' {
                2
            } else if c == '3' {
                3
            } else if c == '4' {
                4
            } else if c == '5' {
                5
            } else if c == '6' {
                6
            } else if c == '7' {
                7
            } else if c == '8' {
                8
            } else {
                9
            };
            proof {
                assert(spec_is_digit(c));
                assert(d == spec_digit_val(c));
                lemma_digits_take_step(cleaned@, i as int);
            }
            let ghost was_overflowed = overflowed;
            let ghost prefix_val = spec_digits_nat(cleaned@.take(i as int));
            acc = match acc.checked_mul(10) {
                Some(x) => x,
                None => {
                    overflowed = true;
                    0
                },
            };
            acc = match acc.checked_add(d) {
                Some(x) => x,
                None => {
                    overflowed = true;
                    0
                },
            };
            proof {
                if !was_overflowed && overflowed {
                    assert(10 * prefix_val + d > i64::MAX);
                    assert(spec_digits_nat(cleaned@.take(i as int + 1)) > i64::MAX);
                    lemma_digits_take_le(cleaned@, i as int + 1);
                }
            }
            if overflowed {
                i = n;
            } else {
                i = i + 1;
            }
        }
        if !overflowed {
            proof {
                assert(cleaned@.take(n as int) =~= cleaned@);
            }
            return Ok(Value::Int(acc));
        }
    }
    match float_from_decimal(cleaned.as_str()) {
        Some(bits) => Ok(Value::Float(bits)),
        None => Err(parse_error(at, "malformed number")),
    }
}


proof fn lemma_byte_pos_step(s: Seq<char>, i: int)
    requires
        i >= 0,
    ensures
        spec_char_byte_pos(s, i + 1) == spec_char_byte_pos(s, i) + spec_utf8_width(s[i]),
{
}


/// The keyword or literal a scanned word stands for, else a plain name.
fn classify_name(name: String) -> (k: TokenKind)
    ensures
        k@ == spec_name_kind(name@),
{
    if crate::textops::str_eq(name.as_str(), "let") {
        TokenKind::KwLet
    } else if crate::textops::str_eq(name.as_str(), "while") {
        TokenKind::KwWhile
    } else if crate::textops::str_eq(name.as_str(), "return") {
        TokenKind::KwReturn
    } else if crate::textops::str_eq(name.as_str(), "not") {
        TokenKind::KwNot
    } else if crate::textops::str_eq(name.as_str(), "or") {
        TokenKind::KwOr
    } else if crate::textops::str_eq(name.as_str(), "and") {
        TokenKind::KwAnd
    } else if crate::textops::str_eq(name.as_str(), "true") {
        TokenKind::Truth(true)
    } else if crate::textops::str_eq(name.as_str(), "false") {
        TokenKind::Truth(false)
    } else {
        TokenKind::Name(name)
    }
}

/// The one- or two-character operator starting at `i`, with its width.
fn operator_at(v: &Vec<char>, i: usize, n: usize) -> (r: Option<(TokenKind, usize)>)
    requires
        n == v@.len(),
        i < n,
    ensures
        match spec_operator_kind(v@, i as int) {
            Some((kind, width)) => r matches Some(p) && p.0@ == kind && p.1 == width,
            None => r is None,
        },
{
    let c = v[i];
    let two = if i + 1 < n {
        Some(v[i + 1])
    } else {
        None
    };
    if c == '=' && two == Some('=') {
        Some((TokenKind::EqEq, 2))
    } else if c == '!' && two == Some('=') {
        Some((TokenKind::NotEq, 2))
    } else if c == '<' && two == Some('=') {
        Some((TokenKind::Le, 2))
    } else if c == '>' && two == Some('=') {
        Some((TokenKind::Ge, 2))
    } else if c == '+' && two == Some('=') {
        Some((TokenKind::PlusAssign, 2))
    } else if c == '-' && two == Some('=') {
        Some((TokenKind::MinusAssign, 2))
    } else if c == '*' && two == Some('=') {
        Some((TokenKind::StarAssign, 2))
    } else if c == '/' && two == Some('=') {
        Some((TokenKind::SlashAssign, 2))
    } else if c == '%' && two == Some('=') {
        Some((TokenKind::PercentAssign, 2))
    } else if c == '=' {
        Some((TokenKind::Assign, 1))
    } else if c == '<' {
        Some((TokenKind::Lt, 1))
    } else if c == '>' {
        Some((TokenKind::Gt, 1))
    } else if c == '+' {
        Some((TokenKind::Plus, 1))
    } else if c == '-' {
        Some((TokenKind::Minus, 1))
    } else if c == '*' {
        Some((TokenKind::Star, 1))
    } else if c == '/' {
        Some((TokenKind::Slash, 1))
    } else if c == '%' {
        Some((TokenKind::Percent, 1))
    } else if c == '(' {
        Some((TokenKind::LParen, 1))
    } else if c == ')' {
        Some((TokenKind::RParen, 1))
    } else if c == '{' {
        Some((TokenKind::LBrace, 1))
    } else if c == '}' {
        Some((TokenKind::RBrace, 1))
    } else if c == ';' {
        Some((TokenKind::Semicolon, 1))
    } else {
        None
    }
}

/// Skip a comment: from the two slashes at `i` to the end of the line.
fn lex_comment(v: &Vec<char>, i: usize, bp: u128) -> (r: (usize, u128))
    requires
        i + 1 < v@.len(),
        v@[i as int] == '/',
        v@[i as int + 1] == '/',
        bp == spec_char_byte_pos(v@, i as int),
        bp <= 4 * (i as int),
    ensures
        r.0 == spec_skip_comment(v@, i as int + 2),
        r.1 == spec_char_byte_pos(v@, r.0 as int),
        r.1 <= 4 * (r.0 as int),
        i < r.0 <= v@.len(),
{
    let ghost s = v@;
    let n = v.len();
    let mut i = i;
    let mut bp = bp;
    proof {
        lemma_byte_pos_step(s, i as int);
        lemma_byte_pos_step(s, i as int + 1);
    }
    let ghost i0 = i as int;
    bp = bp + 2;
    i = i + 2;
    while i < n && !(v[i] == '\n')
        invariant
            i0 + 2 <= i <= n,
            n == v.len(),
            v@ == s,
            bp == spec_char_byte_pos(s, i as int),
            bp <= 4 * (i as int),
            spec_skip_comment(s, i as int) == spec_skip_comment(s, i0 + 2),
        decreases n - i,
    {
        bp = bp + utf8_width(v[i]) as u128;
        i = i + 1;
        proof {
            lemma_byte_pos_step(s, i as int - 1);
        }
    }
    proof {
        assert(spec_skip_comment(s, i as int) == i as int);
    }
    (i, bp)
}

/// Lex a number literal whose first digit sits at `i`.
#[verifier::loop_isolation(false)]
fn lex_number(v: &Vec<char>, i: usize, bp: u128) -> (r: Result<(Token, usize, u128), String>)
    requires
        i < v@.len(),
        spec_is_digit(v@[i as int]),
        bp == spec_char_byte_pos(v@, i as int),
        bp <= 4 * (i as int),
    ensures
        ({
            let scanned = spec_scan_number(v@, i as int + 1, false, seq![v@[i as int]]);
            match spec_number_value(scanned.2, scanned.1, spec_char_byte_pos(v@, i as int)) {
                Ok(vm) => r matches Ok(t) && t.0@ == (TokenModel {
                    kind: TokenKindModel::Number(vm),
                    span: spec_span(v@, i as int, scanned.0),
                }) && t.1 == scanned.0 && t.2 == spec_char_byte_pos(v@, scanned.0) && i < t.1
                    <= v@.len() && t.2 <= 4 * (t.1 as int),
                Err(m) => r matches Err(e) && e@ == m,
            }
        }),
{
    let ghost s = v@;
    let ghost istart = i as int;
    let n = v.len();
    let mut i = i;
    let mut bp = bp;
    let start_bp = bp;
    let c = v[i];
    let mut cleaned = String::new();
    cleaned.push(c);
    bp = bp + 1;
    i = i + 1;
    let mut has_dot = false;
    let ghost i0 = i as int;
    proof {
        assert(cleaned@ =~= seq![c]);
        lemma_byte_pos_step(s, istart);
    }
    while i < n && (is_digit(v[i]) || v[i] == '_' || (v[i] == '.' && !has_dot && i + 1 < n
        && is_digit(v[i + 1])))
        invariant
            i0 <= i <= n,
            bp == spec_char_byte_pos(s, i as int),
            bp <= 4 * (i as int),
            cleaned@.len() > 0,
            '0' <= cleaned@[0] <= '9',
            '0' <= cleaned@[cleaned@.len() - 1] <= '9',
            forall|k: int|
                0 <= k < cleaned@.len() ==> ('0' <= #[trigger] cleaned@[k] <= '9' || cleaned@[k]
                    == '.'),
            !has_dot ==> forall|k: int|
                0 <= k < cleaned@.len() ==> spec_is_digit(#[trigger] cleaned@[k]),
            spec_scan_number(s, i as int, has_dot, cleaned@) == spec_scan_number(
                s,
                i0,
                false,
                seq![c],
            ),
        decreases n - i,
    {
        let ghost iprev = i as int;
        let d = v[i];
        if d == '.' {
            has_dot = true;
            cleaned.push('.');
            bp = bp + 1;
            i = i + 1;
            // the guard saw a digit right after the dot
            let e = v[i];
            cleaned.push(e);
            bp = bp + 1;
            i = i + 1;
            proof {
                lemma_byte_pos_step(s, iprev);
                lemma_byte_pos_step(s, iprev + 1);
            }
        } else if d == '_' {
            bp = bp + 1;
            i = i + 1;
            proof {
                lemma_byte_pos_step(s, iprev);
            }
        } else {
            cleaned.push(d);
            bp = bp + 1;
            i = i + 1;
            proof {
                lemma_byte_pos_step(s, iprev);
            }
        }
    }
    proof {
        assert(spec_scan_number(s, i as int, has_dot, cleaned@) == (i as int, has_dot, cleaned@));
    }
    let value = match number_value(&cleaned, has_dot, start_bp) {
        Ok(x) => x,
        Err(e) => {
            return Err(e);
        },
    };
    let token = Token {
        kind: TokenKind::Number(value),
        span: Span::new(span_pos(start_bp), span_pos(bp)),
    };
    Ok((token, i, bp))
}

/// Lex a name or keyword whose first character sits at `i`.
#[verifier::loop_isolation(false)]
fn lex_name(v: &Vec<char>, i: usize, bp: u128) -> (r: (Token, usize, u128))
    requires
        i < v@.len(),
        spec_is_name_start(v@[i as int]),
        bp == spec_char_byte_pos(v@, i as int),
        bp <= 4 * (i as int),
    ensures
        ({
            let scanned = spec_scan_name(v@, i as int + 1, seq![v@[i as int]]);
            r.0@ == (TokenModel {
                kind: spec_name_kind(scanned.1),
                span: spec_span(v@, i as int, scanned.0),
            }) && r.1 == scanned.0 && r.2 == spec_char_byte_pos(v@, scanned.0) && i < r.1
                <= v@.len() && r.2 <= 4 * (r.1 as int)
        }),
{
    let ghost s = v@;
    let ghost istart = i as int;
    let n = v.len();
    let mut i = i;
    let mut bp = bp;
    let start_bp = bp;
    let c = v[i];
    let mut name = String::new();
    name.push(c);
    bp = bp + 1;
    i = i + 1;
    let ghost i0 = i as int;
    proof {
        assert(name@ =~= seq![c]);
        lemma_byte_pos_step(s, istart);
    }
    while i < n && is_name_part(v[i])
        invariant
            i0 <= i <= n,
            bp == spec_char_byte_pos(s, i as int),
            bp <= 4 * (i as int),
            spec_scan_name(s, i as int, name@) == spec_scan_name(s, i0, seq![c]),
        decreases n - i,
    {
        name.push(v[i]);
        bp = bp + 1;
        i = i + 1;
        proof {
            lemma_byte_pos_step(s, i as int - 1);
        }
    }
    proof {
        assert(spec_scan_name(s, i as int, name@) == (i as int, name@));
    }
    let span = Span::new(span_pos(start_bp), span_pos(bp));
    let kind = classify_name(name);
    (Token { kind, span }, i, bp)
}

/// Lex a string literal whose opening quote sits at `i`.
#[verifier::loop_isolation(false)]
fn lex_text(v: &Vec<char>, i: usize, bp: u128) -> (r: Result<(Token, usize, u128), String>)
    requires
        i < v@.len(),
        v@[i as int] == '"',
        bp == spec_char_byte_pos(v@, i as int),
        bp <= 4 * (i as int),
    ensures
        ({
            let scanned = spec_scan_text(v@, i as int + 1, Seq::<char>::empty());
            if scanned.0 >= v@.len() {
                r matches Err(e) && e@ == spec_parse_error_text(
                    spec_char_byte_pos(v@, i as int),
                    "unterminated string literal"@,
                )
            } else {
                r matches Ok(t) && t.0@ == (TokenModel {
                    kind: TokenKindModel::Text(scanned.1),
                    span: spec_span(v@, i as int, scanned.0 + 1),
                }) && t.1 == scanned.0 + 1 && t.2 == spec_char_byte_pos(v@, scanned.0 + 1) && i
                    < t.1 <= v@.len() && t.2 <= 4 * (t.1 as int)
            }
        }),
{
    let ghost s = v@;
    let ghost istart = i as int;
    let n = v.len();
    let mut i = i;
    let mut bp = bp;
    let start_bp = bp;
    bp = bp + 1;
    i = i + 1;
    let mut text = String::new();
    let ghost i0 = i as int;
    proof {
        assert(text@ =~= Seq::<char>::empty());
        lemma_byte_pos_step(s, istart);
    }
    while i < n && !(v[i] == '"')
        invariant
            i0 <= i <= n,
            bp == spec_char_byte_pos(s, i as int),
            bp <= 4 * (i as int),
            spec_scan_text(s, i as int, text@) == spec_scan_text(s, i0, Seq::<char>::empty()),
        decreases n - i,
    {
        text.push(v[i]);
        bp = bp + utf8_width(v[i]) as u128;
        i = i + 1;
        proof {
            lemma_byte_pos_step(s, i as int - 1);
        }
    }
    proof {
        assert(spec_scan_text(s, i as int, text@) == (i as int, text@));
    }
    if i >= n {
        return Err(parse_error(start_bp, "unterminated string literal"));
    }
    bp = bp + 1;
    i = i + 1;
    proof {
        lemma_byte_pos_step(s, i as int - 1);
    }
    let token = Token {
        kind: TokenKind::Text(text),
        span: Span::new(span_pos(start_bp), span_pos(bp)),
    };
    Ok((token, i, bp))
}

/// Lex a character literal whose opening quote sits at `i`.
fn lex_letter(v: &Vec<char>, i: usize, bp: u128) -> (r: Result<(Token, usize, u128), String>)
    requires
        i < v@.len(),
        v@[i as int] == '\'',
        bp == spec_char_byte_pos(v@, i as int),
        bp <= 4 * (i as int),
    ensures
        ({
            let s = v@;
            if s.len() - i < 3 || s[i as int + 2] != '\'' {
                r matches Err(e) && e@ == spec_parse_error_text(
                    spec_char_byte_pos(s, i as int),
                    "malformed character literal"@,
                )
            } else {
                r matches Ok(t) && t.0@ == (TokenModel {
                    kind: TokenKindModel::Letter(s[i as int + 1]),
                    span: spec_span(s, i as int, i as int + 3),
                }) && t.1 == i + 3 && t.2 == spec_char_byte_pos(s, i as int + 3) && t.2 <= 4 * (
                t.1 as int)
            }
        }),
{
    let ghost s = v@;
    let n = v.len();
    let start_bp = bp;
    if n - i < 3 || !(v[i + 2] == '\'') {
        return Err(parse_error(start_bp, "malformed character literal"));
    }
    let letter = v[i + 1];
    let bp2 = bp + 2 + utf8_width(letter) as u128;
    proof {
        lemma_byte_pos_step(s, i as int);
        lemma_byte_pos_step(s, i as int + 1);
        lemma_byte_pos_step(s, i as int + 2);
    }
    let token = Token {
        kind: TokenKind::Letter(letter),
        span: Span::new(span_pos(start_bp), span_pos(bp2)),
    };
    Ok((token, i + 3, bp2))
}

/// Split the source text into tokens.
#[verifier::loop_isolation(false)]
#[verifier::rlimit(100)]
fn tokenize(input: &str) -> (r: Result<Vec<Token>, String>)
    ensures
        match spec_tokenize(input@) {
            Ok(tsm) => r matches Ok(out) && spec_tokens_view(out@) == tsm,
            Err(m) => r matches Err(e) && e@ == m,
        },
{
    let ghost s = input@;
    let v = chars_of(input);
    let n = v.len();
    let mut tokens: Vec<Token> = Vec::new();
    let mut i: usize = 0;
    let mut bp: u128 = 0;
    proof {
        assert(spec_tokens_view(tokens@) =~= Seq::<TokenModel>::empty());
    }
    while i < n
        invariant
            i <= n,
            n == v.len(),
            v@ == s,
            bp == spec_char_byte_pos(s, i as int),
            bp <= 4 * (i as int),
            spec_tokenize_from(s, i as int, spec_tokens_view(tokens@)) == spec_tokenize(s),
        decreases n - i,
    {
        let ghost acc0 = spec_tokens_view(tokens@);
        let ghost istart = i as int;
        let c = v[i];
        if c == ' ' || c == '\t' || c == '\r' || c == '\n' {
            bp = bp + utf8_width(c) as u128;
            i = i + 1;
            proof {
                lemma_byte_pos_step(s, istart);
            }
        } else if c == '/' && i + 1 < n && v[i + 1] == '/' {
            let stepped = lex_comment(&v, i, bp);
            i = stepped.0;
            bp = stepped.1;
        } else if is_digit(c) {
            let (token, i2, bp2) = match lex_number(&v, i, bp) {
                Ok(t) => t,
                Err(e) => {
                    return Err(e);
                },
            };
            i = i2;
            bp = bp2;
            let ghost tm = token@;
            tokens.push(token);
            proof {
                assert(spec_tokens_view(tokens@) =~= acc0.push(tm));
            }
        } else if is_name_start(c) {
            let (token, i2, bp2) = lex_name(&v, i, bp);
            i = i2;
            bp = bp2;
            let ghost tm = token@;
            tokens.push(token);
            proof {
                assert(spec_tokens_view(tokens@) =~= acc0.push(tm));
            }
        } else if c == '"' {
            let (token, i2, bp2) = match lex_text(&v, i, bp) {
                Ok(t) => t,
                Err(e) => {
                    return Err(e);
                },
            };
            i = i2;
            bp = bp2;
            let ghost tm = token@;
            tokens.push(token);
            proof {
                assert(spec_tokens_view(tokens@) =~= acc0.push(tm));
            }
        } else if c == '\'' {
            let (token, i2, bp2) = match lex_letter(&v, i, bp) {
                Ok(t) => t,
                Err(e) => {
                    return Err(e);
                },
            };
            i = i2;
            bp = bp2;
            let ghost tm = token@;
            tokens.push(token);
            proof {
                assert(spec_tokens_view(tokens@) =~= acc0.push(tm));
            }
        } else {
            let start_bp = bp;
            let (kind, width) = match operator_at(&v, i, n) {
                Some(p) => p,
                None => {
                    return Err(parse_error(start_bp, "unexpected character"));
                },
            };
            bp = bp + width as u128;
            i = i + width;
            proof {
                lemma_byte_pos_step(s, istart);
                if width == 2 {
                    lemma_byte_pos_step(s, istart + 1);
                }
            }
            let token = Token { kind, span: Span::new(span_pos(start_bp), span_pos(bp)) };
            proof {
                assert(token@.span == spec_span(s, istart, i as int));
                assert(token@ == (TokenModel {
                    kind: (spec_operator_kind(s, istart)->0).0,
                    span: spec_span(s, istart, i as int),
                }));
            }
            let ghost tm = token@;
            tokens.push(token);
            proof {
                assert(spec_tokens_view(tokens@) =~= acc0.push(tm));
            }
        }
    }
    Ok(tokens)
}

/// The binary operator of a token at the given precedence level, if
/// the token carries one.
fn level_operator(kind: &TokenKind, level: u8) -> (r: Option<BinaryOperator>)
    ensures
        r == spec_level_operator(kind@, level as int),
{
    match (level, kind) {
        (0, TokenKind::KwOr) => Some(BinaryOperator::Or),
        (1, TokenKind::KwAnd) => Some(BinaryOperator::And),
        (2, TokenKind::EqEq) => Some(BinaryOperator::Equal),
        (2, TokenKind::NotEq) => Some(BinaryOperator::NotEqual),
        (3, TokenKind::Lt) => Some(BinaryOperator::LessThan),
        (3, TokenKind::Le) => Some(BinaryOperator::LessEq),
        (3, TokenKind::Gt) => Some(BinaryOperator::GreaterThan),
        (3, TokenKind::Ge) => Some(BinaryOperator::GreaterEq),
        (4, TokenKind::Plus) => Some(BinaryOperator::Add),
        (4, TokenKind::Minus) => Some(BinaryOperator::Sub),
        (5, TokenKind::Star) => Some(BinaryOperator::Mul),
        (5, TokenKind::Slash) => Some(BinaryOperator::Div),
        (5, TokenKind::Percent) => Some(BinaryOperator::Mod),
        _ => None,
    }
}

/// Parse one expression starting at token `idx`, at the given
/// precedence level; yields the expression and the index after it.
#[verifier::loop_isolation(false)]
#[verifier::rlimit(100)]
fn parse_expression_at(tokens: &Vec<Token>, idx: usize, level: u8) -> (r: Result<
    (Expression, usize),
    String,
>)
    requires
        idx <= tokens@.len(),
        level <= 6,
    ensures
        r matches Ok((e, j)) ==> idx < j <= tokens@.len(),
        match spec_parse_expression(spec_tokens_view(tokens@), idx as int, level as int) {
            Ok(p) => r matches Ok(q) && q.0@ == p.0 && q.1 == p.1,
            Err(m) => r matches Err(e) && e@ == m,
        },
    decreases tokens@.len() - idx, 7 - level,
{
    let ghost ts = spec_tokens_view(tokens@);
    let ghost target = spec_parse_expression(ts, idx as int, level as int);
    if level < 6 {
        let parsed = match parse_expression_at(tokens, idx, level + 1) {
            Ok(x) => x,
            Err(e) => {
                return Err(e);
            },
        };
        let mut left = parsed.0;
        let mut j = parsed.1;
        proof {
            assert(target == spec_parse_binary_chain(ts, level as int, left@, j as int));
        }
        while j < tokens.len() && level_operator(&tokens[j].kind, level).is_some()
            invariant
                idx < j <= tokens@.len(),
                target == spec_parse_binary_chain(ts, level as int, left@, j as int),
            decreases tokens@.len() - j,
        {
            proof {
                assert(ts[j as int] == tokens@[j as int]@);
            }
            let operator = match level_operator(&tokens[j].kind, level) {
                Some(op) => op,
                None => {
                    return Err(parse_error(0, "unreachable operator state"));
                },
            };
            let operator_span = tokens[j].span;
            let right_parsed = match parse_expression_at(tokens, j + 1, level + 1) {
                Ok(x) => x,
                Err(e) => {
                    return Err(e);
                },
            };
            let right = right_parsed.0;
            let ghost jprev = j as int;
            let ghost left_prev = left@;
            let ghost right_m = right@;
            j = right_parsed.1;
            proof {
                lemma_expr_span_view(left);
            }
            let span = Span::new(left.span().start(), right.span().end());
            proof {
                lemma_expr_span_view(right);
            }
            left = Expression::BinaryOperation(
                BinaryOperation::new(span, operator_span, Box::new(left), operator, Box::new(right)),
            );
            proof {
                assert(left@ == ExpressionModel::BinaryOperation(
                    BinaryOperationModel {
                        span,
                        operator_span,
                        operator,
                        operands: seq![left_prev, right_m],
                    },
                ));
                assert(target == spec_parse_binary_chain(ts, level as int, left@, j as int));
            }
        }
        proof {
            if j < tokens@.len() {
                assert(ts[j as int] == tokens@[j as int]@);
            }
            assert(target == Ok::<(ExpressionModel, int), Seq<char>>((left@, j as int)));
        }
        Ok((left, j))
    } else {
        // prefix operators bind tighter than any binary operator and
        // nest freely: `not not true`, `-(5)`
        if idx < tokens.len() {
            proof {
                assert(ts[idx as int] == tokens@[idx as int]@);
            }
            let is_not = matches!(&tokens[idx].kind, TokenKind::KwNot);
            let is_neg = matches!(&tokens[idx].kind, TokenKind::Minus);
            if is_not || is_neg {
                let operator = if is_not {
                    UnaryOperator::Not
                } else {
                    UnaryOperator::Neg
                };
                let operator_span = tokens[idx].span;
                let operand_parsed = match parse_expression_at(tokens, idx + 1, 6) {
                    Ok(x) => x,
                    Err(e) => {
                        return Err(e);
                    },
                };
                let operand = operand_parsed.0;
                let j = operand_parsed.1;
                proof {
                    lemma_expr_span_view(operand);
                }
                let span = Span::new(operator_span.start(), operand.span().end());
                let ghost operand_m = operand@;
                return Ok(
                    (
                        Expression::UnaryOperation(
                            UnaryOperation::new(span, operator_span, operator, Box::new(operand)),
                        ),
                        j,
                    ),
                );
            }
        }
        parse_atom(tokens, idx)
    }
}

/// Parse an atom: a literal, an identifier, or a parenthesised
/// expression.
fn parse_atom(tokens: &Vec<Token>, idx: usize) -> (r: Result<(Expression, usize), String>)
    requires
        idx <= tokens@.len(),
    ensures
        r matches Ok((e, j)) ==> idx < j <= tokens@.len(),
        match spec_parse_atom(spec_tokens_view(tokens@), idx as int) {
            Ok(p) => r matches Ok(q) && q.0@ == p.0 && q.1 == p.1,
            Err(m) => r matches Err(e) && e@ == m,
        },
    decreases tokens@.len() - idx, 0int,
{
    let ghost ts = spec_tokens_view(tokens@);
    if idx >= tokens.len() {
        return Err(parse_error(0, "expected an expression, found the end of the input"));
    }
    proof {
        assert(ts[idx as int] == tokens@[idx as int]@);
    }
    let span = tokens[idx].span;
    match &tokens[idx].kind {
        TokenKind::Number(value) => Ok(
            (Expression::Literal(Literal::new(value.duplicate(), span)), idx + 1),
        ),
        TokenKind::Text(text) => Ok(
            (Expression::Literal(Literal::new(Value::Str(text.clone()), span)), idx + 1),
        ),
        TokenKind::Letter(letter) => Ok(
            (Expression::Literal(Literal::new(Value::Char(*letter), span)), idx + 1),
        ),
        TokenKind::Truth(truth) => Ok(
            (Expression::Literal(Literal::new(Value::Bool(*truth), span)), idx + 1),
        ),
        TokenKind::Name(name) => Ok(
            (Expression::Identifier(Identifier::new(name.clone(), span)), idx + 1),
        ),
        TokenKind::LParen => {
            let inner_parsed = match parse_expression_at(tokens, idx + 1, 0) {
                Ok(x) => x,
                Err(e) => {
                    return Err(e);
                },
            };
            let inner = inner_parsed.0;
            let j = inner_parsed.1;
            proof {
                if j < tokens@.len() {
                    assert(ts[j as int] == tokens@[j as int]@);
                }
            }
            if j < tokens.len() && matches!(&tokens[j].kind, TokenKind::RParen) {
                Ok((inner, j + 1))
            } else {
                Err(parse_error(span.start() as u128, "expected a closing parenthesis"))
            }
        },
        _ => Err(parse_error(span.start() as u128, "expected an expression")),
    }
}

/// The assignment operator of a token, if the token carries one.
fn assignment_operator(kind: &TokenKind) -> (r: Option<AssignmentOperator>)
    ensures
        r == spec_assignment_operator(kind@),
{
    match kind {
        TokenKind::Assign => Some(AssignmentOperator::Basic),
        TokenKind::PlusAssign => Some(AssignmentOperator::Add),
        TokenKind::MinusAssign => Some(AssignmentOperator::Sub),
        TokenKind::StarAssign => Some(AssignmentOperator::Mul),
        TokenKind::SlashAssign => Some(AssignmentOperator::Div),
        TokenKind::PercentAssign => Some(AssignmentOperator::Mod),
        _ => None,
    }
}

/// Parse one statement starting at token `idx`; a trailing semicolon
/// is consumed when present.
#[verifier::rlimit(100)]
fn parse_statement_at(tokens: &Vec<Token>, idx: usize) -> (r: Result<(Statement, usize), String>)
    requires
        idx < tokens@.len(),
    ensures
        r matches Ok((st, j)) ==> idx < j <= tokens@.len(),
        match spec_parse_statement(spec_tokens_view(tokens@), idx as int) {
            Ok(p) => r matches Ok(q) && q.0@ == p.0 && q.1 == p.1,
            Err(m) => r matches Err(e) && e@ == m,
        },
{
    let ghost ts = spec_tokens_view(tokens@);
    proof {
        assert(ts[idx as int] == tokens@[idx as int]@);
        if idx + 1 < tokens@.len() {
            assert(ts[idx as int + 1] == tokens@[idx as int + 1]@);
        }
        if idx + 2 < tokens@.len() {
            assert(ts[idx as int + 2] == tokens@[idx as int + 2]@);
        }
    }
    let n = tokens.len();
    let span_start = tokens[idx].span;
    let parsed: (Statement, usize) = match &tokens[idx].kind {
        TokenKind::KwLet => {
            if idx + 1 >= n {
                return Err(
                    parse_error(span_start.start() as u128, "expected a name after 'let'"),
                );
            }
            let identifier = match &tokens[idx + 1].kind {
                TokenKind::Name(name) => Identifier::new(name.clone(), tokens[idx + 1].span),
                TokenKind::KwLet | TokenKind::KwReturn => Identifier::new(
                    keyword_text(&tokens[idx + 1].kind),
                    tokens[idx + 1].span,
                ),
                _ => {
                    return Err(
                        parse_error(span_start.start() as u128, "expected a name after 'let'"),
                    );
                },
            };
            if idx + 2 >= n || !matches!(&tokens[idx + 2].kind, TokenKind::Assign) {
                return Err(parse_error(span_start.start() as u128, "expected '=' in 'let'"));
            }
            let operator_span = tokens[idx + 2].span;
            let parsed = match parse_expression_at(tokens, idx + 3, 0) {
                Ok(x) => x,
                Err(e) => {
                    return Err(e);
                },
            };
            let expression = parsed.0;
            let j = parsed.1;
            proof {
                lemma_expr_span_view(expression);
            }
            let span = Span::new(span_start.start(), expression.span().end());
            (
                Statement::LetStatement(
                    LetStatement::new(span, identifier, operator_span, Box::new(expression)),
                ),
                j,
            )
        },
        TokenKind::KwReturn => {
            let parsed = match parse_expression_at(tokens, idx + 1, 0) {
                Ok(x) => x,
                Err(e) => {
                    return Err(e);
                },
            };
            let expression = parsed.0;
            let j = parsed.1;
            proof {
                lemma_expr_span_view(expression);
            }
            let span = Span::new(span_start.start(), expression.span().end());
            (Statement::ReturnStatement(ReturnStatement::new(span, Box::new(expression))), j)
        },
        TokenKind::Name(name) => {
            let next_assign: Option<AssignmentOperator> = if idx + 1 < n {
                assignment_operator(&tokens[idx + 1].kind)
            } else {
                None
            };
            match next_assign {
                Some(operator) => {
                    let lhs = Identifier::new(name.clone(), span_start);
                    let operator_span = tokens[idx + 1].span;
                    let parsed = match parse_expression_at(tokens, idx + 2, 0) {
                        Ok(x) => x,
                        Err(e) => {
                            return Err(e);
                        },
                    };
                    let rhs = parsed.0;
                    let j = parsed.1;
                    proof {
                        lemma_expr_span_view(rhs);
                    }
                    let span = Span::new(span_start.start(), rhs.span().end());
                    (
                        Statement::Assignment(
                            Assignment::new(span, lhs, operator, operator_span, Box::new(rhs)),
                        ),
                        j,
                    )
                },
                None => {
                    let parsed = match parse_expression_at(tokens, idx, 0) {
                        Ok(x) => x,
                        Err(e) => {
                            return Err(e);
                        },
                    };
                    return Ok(expression_statement(tokens, parsed.0, parsed.1));
                },
            }
        },
        _ => {
            let parsed = match parse_expression_at(tokens, idx, 0) {
                Ok(x) => x,
                Err(e) => {
                    return Err(e);
                },
            };
            return Ok(expression_statement(tokens, parsed.0, parsed.1));
        },
    };
    let statement = parsed.0;
    let j = parsed.1;
    proof {
        if j < tokens@.len() {
            assert(ts[j as int] == tokens@[j as int]@);
        }
    }
    if j < tokens.len() && matches!(&tokens[j].kind, TokenKind::Semicolon) {
        Ok((statement, j + 1))
    } else {
        Ok((statement, j))
    }
}

/// A parsed bare expression: with a semicolon it is a statement whose
/// value is discarded; without one it yields the program's result.
fn expression_statement(tokens: &Vec<Token>, expression: Expression, j: usize) -> (r: (
    Statement,
    usize,
))
    requires
        j <= tokens@.len(),
    ensures
        j <= r.1 <= tokens@.len(),
        ({
            let p = spec_expression_statement(spec_tokens_view(tokens@), expression@, j as int);
            r.0@ == p.0 && r.1 == p.1
        }),
{
    let ghost ts = spec_tokens_view(tokens@);
    proof {
        if j < tokens@.len() {
            assert(ts[j as int] == tokens@[j as int]@);
        }
    }
    if j < tokens.len() && matches!(&tokens[j].kind, TokenKind::Semicolon) {
        (Statement::Expression(expression), j + 1)
    } else {
        proof {
            lemma_expr_span_view(expression);
        }
        let span = expression.span();
        (Statement::ReturnStatement(ReturnStatement::new(span, Box::new(expression))), j)
    }
}

/// The text of a keyword token, for the diagnosed case of a keyword in
/// the place of a name.
fn keyword_text(kind: &TokenKind) -> (r: String)
    ensures
        kind@ is KwLet ==> r@ == "let"@,
        kind@ is KwReturn ==> r@ == "return"@,
{
    match kind {
        TokenKind::KwLet => "let".to_owned(),
        TokenKind::KwReturn => "return".to_owned(),
        _ => String::new(),
    }
}

/// Parse a while loop starting at its `while` keyword.
#[verifier::loop_isolation(false)]
fn parse_while_at(tokens: &Vec<Token>, idx: usize) -> (r: Result<(WhileLoop, usize), String>)
    requires
        idx < tokens@.len(),
    ensures
        r matches Ok((w, j)) ==> idx < j <= tokens@.len(),
        match spec_parse_while(spec_tokens_view(tokens@), idx as int) {
            Ok(p) => r matches Ok(q) && q.0@ == p.0 && q.1 == p.1,
            Err(m) => r matches Err(e) && e@ == m,
        },
{
    let ghost ts = spec_tokens_view(tokens@);
    proof {
        assert(ts[idx as int] == tokens@[idx as int]@);
    }
    let n = tokens.len();
    let kw_span = tokens[idx].span;
    let parsed = match parse_expression_at(tokens, idx + 1, 0) {
        Ok(x) => x,
        Err(e) => {
            return Err(e);
        },
    };
    let condition = parsed.0;
    let mut j = parsed.1;
    proof {
        if j < tokens@.len() {
            assert(ts[j as int] == tokens@[j as int]@);
        }
    }
    if j >= tokens.len() || !matches!(&tokens[j].kind, TokenKind::LBrace) {
        return Err(parse_error(kw_span.start() as u128, "expected '{' after the condition"));
    }
    j = j + 1;
    let mut statements: Vec<Statement> = Vec::new();
    let ghost jbody = j as int;
    let ghost block_target = spec_parse_block(ts, jbody, Seq::<StatementModel>::empty());
    proof {
        assert(spec_stmts_view(statements@) =~= Seq::<StatementModel>::empty());
    }
    while j < tokens.len() && !matches!(&tokens[j].kind, TokenKind::RBrace)
        invariant
            idx < j <= tokens@.len(),
            spec_parse_block(ts, j as int, spec_stmts_view(statements@)) == block_target,
        decreases tokens@.len() - j,
    {
        proof {
            assert(ts[j as int] == tokens@[j as int]@);
        }
        let parsed = match parse_statement_at(tokens, j) {
            Ok(x) => x,
            Err(e) => {
                return Err(e);
            },
        };
        let ghost stm = parsed.0@;
        let ghost stview0 = spec_stmts_view(statements@);
        statements.push(parsed.0);
        j = parsed.1;
        proof {
            assert(spec_stmts_view(statements@) =~= stview0.push(stm));
        }
    }
    proof {
        if j < tokens@.len() {
            assert(ts[j as int] == tokens@[j as int]@);
        }
        assert(block_target == Ok::<(Seq<StatementModel>, int), Seq<char>>((
            spec_stmts_view(statements@),
            j as int,
        )));
    }
    if j >= tokens.len() {
        return Err(parse_error(kw_span.start() as u128, "expected '}' to close the loop body"));
    }
    let close_span = tokens[j].span;
    j = j + 1;
    let span = Span::new(kw_span.start(), close_span.end());
    Ok((WhileLoop::new(span, condition, BasicBlock::new(statements)), j))
}

/// Parse source text into a function body: a sequence of while loops
/// and basic blocks of consecutive statements. The result is exactly
/// what the grammar's model-level parse of the text yields.
#[verifier::loop_isolation(false)]
#[verifier::rlimit(100)]
pub fn parse(input: &str) -> (r: Result<FunctionBody, String>)
    ensures
        match spec_parse(input@) {
            Ok(bm) => r matches Ok(b) && b@ == bm,
            Err(m) => r matches Err(e) && e@ == m,
        },
{
    let tokens = match tokenize(input) {
        Ok(t) => t,
        Err(e) => {
            return Err(e);
        },
    };
    let ghost ts = spec_tokens_view(tokens@);
    let n = tokens.len();
    let mut units: Vec<ControlFlow> = Vec::new();
    let mut pending: Vec<Statement> = Vec::new();
    let mut i: usize = 0;
    let ghost target = spec_parse_program(
        ts,
        0,
        Seq::<StatementModel>::empty(),
        Seq::<ControlFlowModel>::empty(),
    );
    proof {
        assert(spec_stmts_view(pending@) =~= Seq::<StatementModel>::empty());
        assert(spec_units_view(units@) =~= Seq::<ControlFlowModel>::empty());
    }
    while i < n
        invariant
            i <= n,
            n == tokens@.len(),
            spec_parse_program(ts, i as int, spec_stmts_view(pending@), spec_units_view(units@))
                == target,
        decreases n - i,
    {
        proof {
            assert(ts[i as int] == tokens@[i as int]@);
        }
        if matches!(&tokens[i].kind, TokenKind::KwWhile) {
            let ghost flushed = spec_flush_pending(
                spec_units_view(units@),
                spec_stmts_view(pending@),
            );
            if pending.len() > 0 {
                let mut block: Vec<Statement> = Vec::new();
                core::mem::swap(&mut block, &mut pending);
                let ghost units0 = spec_units_view(units@);
                let ghost blockm = BasicBlockModel { statements: spec_stmts_view(block@) };
                units.push(ControlFlow::BasicBlock(BasicBlock::new(block)));
                proof {
                    assert(spec_units_view(units@) =~= units0.push(
                        ControlFlowModel::BasicBlock(blockm),
                    ));
                    assert(spec_stmts_view(pending@) =~= Seq::<StatementModel>::empty());
                    assert(spec_units_view(units@) == flushed);
                }
            }
            proof {
                assert(pending@.len() == 0);
                assert(spec_stmts_view(pending@) =~= Seq::<StatementModel>::empty());
                assert(spec_units_view(units@) == flushed);
            }
            let parsed = match parse_while_at(&tokens, i) {
                Ok(x) => x,
                Err(e) => {
                    return Err(e);
                },
            };
            let ghost wm = parsed.0@;
            let ghost units1 = spec_units_view(units@);
            units.push(ControlFlow::WhileLoop(parsed.0));
            i = parsed.1;
            proof {
                assert(spec_units_view(units@) =~= units1.push(ControlFlowModel::WhileLoop(wm)));
            }
        } else {
            let parsed = match parse_statement_at(&tokens, i) {
                Ok(x) => x,
                Err(e) => {
                    return Err(e);
                },
            };
            let ghost stm = parsed.0@;
            let ghost pend0 = spec_stmts_view(pending@);
            pending.push(parsed.0);
            i = parsed.1;
            proof {
                assert(spec_stmts_view(pending@) =~= pend0.push(stm));
            }
        }
    }
    let ghost flushed = spec_flush_pending(spec_units_view(units@), spec_stmts_view(pending@));
    if pending.len() > 0 {
        let mut block: Vec<Statement> = Vec::new();
        core::mem::swap(&mut block, &mut pending);
        let ghost units0 = spec_units_view(units@);
        let ghost blockm = BasicBlockModel { statements: spec_stmts_view(block@) };
        units.push(ControlFlow::BasicBlock(BasicBlock::new(block)));
        proof {
            assert(spec_units_view(units@) =~= units0.push(
                ControlFlowModel::BasicBlock(blockm),
            ));
            assert(spec_units_view(units@) == flushed);
        }
    }
    let body = FunctionBody::new(units);
    proof {
        assert(body@ == (FunctionBodyModel { control_flow_structures: flushed }));
    }
    Ok(body)
}

} // verus!
