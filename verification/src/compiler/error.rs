use vstd::prelude::*;

use crate::compiler::language_components::{BinaryOperator, Span, UnaryOperator};
use crate::textops::{
    chars_of, decimal_width, push_decimal, push_spaces, spec_char_byte_pos, spec_dec_digits,
    spec_spaces, utf8_width,
};
use vstd::string::StrSliceExecFns;
use vstd::string::StringExecFns;

verus! {

/// The closed set of faults the compiler can diagnose in a source
/// program. Type names are carried as rendered strings.
#[derive(Debug, Clone)]
pub enum ErrorKind {
    InvalidBinaryOperation(BinaryOperator, String, String),
    InvalidUnaryOperation(UnaryOperator, String),
    IdentifierNotFound,
    IdentifierIsKeyword,
    InvalidAssignment(String, String),
    ArgumentInvalidType(String, String),
}

/// The model of an `ErrorKind`.
pub enum ErrorKindModel {
    InvalidBinaryOperation(BinaryOperator, Seq<char>, Seq<char>),
    InvalidUnaryOperation(UnaryOperator, Seq<char>),
    IdentifierNotFound,
    IdentifierIsKeyword,
    InvalidAssignment(Seq<char>, Seq<char>),
    ArgumentInvalidType(Seq<char>, Seq<char>),
}

impl View for ErrorKind {
    type V = ErrorKindModel;

    open spec fn view(&self) -> ErrorKindModel {
        match self {
            ErrorKind::InvalidBinaryOperation(op, l, r) => ErrorKindModel::InvalidBinaryOperation(
                *op,
                l@,
                r@,
            ),
            ErrorKind::InvalidUnaryOperation(op, t) => ErrorKindModel::InvalidUnaryOperation(
                *op,
                t@,
            ),
            ErrorKind::IdentifierNotFound => ErrorKindModel::IdentifierNotFound,
            ErrorKind::IdentifierIsKeyword => ErrorKindModel::IdentifierIsKeyword,
            ErrorKind::InvalidAssignment(a, b) => ErrorKindModel::InvalidAssignment(a@, b@),
            ErrorKind::ArgumentInvalidType(a, b) => ErrorKindModel::ArgumentInvalidType(a@, b@),
        }
    }
}

/// The operator's surface syntax.
pub open spec fn spec_binary_operator_symbol(op: BinaryOperator) -> Seq<char> {
    match op {
        BinaryOperator::Or => "or"@,
        BinaryOperator::And => "and"@,
        BinaryOperator::Equal => "=="@,
        BinaryOperator::NotEqual => "!="@,
        BinaryOperator::LessThan => "<"@,
        BinaryOperator::LessEq => "<="@,
        BinaryOperator::GreaterThan => ">"@,
        BinaryOperator::GreaterEq => ">="@,
        BinaryOperator::Add => "+"@,
        BinaryOperator::Sub => "-"@,
        BinaryOperator::Mul => "*"@,
        BinaryOperator::Div => "/"@,
        BinaryOperator::Mod => "%"@,
    }
}

pub fn binary_operator_symbol(op: BinaryOperator) -> (r: &'static str)
    ensures
        r@ == spec_binary_operator_symbol(op),
{
    match op {
        BinaryOperator::Or => "or",
        BinaryOperator::And => "and",
        BinaryOperator::Equal => "==",
        BinaryOperator::NotEqual => "!=",
        BinaryOperator::LessThan => "<",
        BinaryOperator::LessEq => "<=",
        BinaryOperator::GreaterThan => ">",
        BinaryOperator::GreaterEq => ">=",
        BinaryOperator::Add => "+",
        BinaryOperator::Sub => "-",
        BinaryOperator::Mul => "*",
        BinaryOperator::Div => "/",
        BinaryOperator::Mod => "%",
    }
}

pub open spec fn spec_unary_operator_symbol(op: UnaryOperator) -> Seq<char> {
    match op {
        UnaryOperator::Not => "not"@,
        UnaryOperator::Neg => "-"@,
    }
}

pub fn unary_operator_symbol(op: UnaryOperator) -> (r: &'static str)
    ensures
        r@ == spec_unary_operator_symbol(op),
{
    match op {
        UnaryOperator::Not => "not",
        UnaryOperator::Neg => "-",
    }
}

/// The one-line message of the `Error: ...` footer.
pub open spec fn spec_kind_message(k: ErrorKindModel) -> Seq<char> {
    match k {
        ErrorKindModel::InvalidBinaryOperation(op, l, r) => "Invalid operation '"@
            + spec_binary_operator_symbol(op) + "' for types '"@ + l + "' and '"@ + r + "'"@,
        ErrorKindModel::InvalidUnaryOperation(op, t) => "Invalid operation '"@
            + spec_unary_operator_symbol(op) + "' for type '"@ + t + "'"@,
        ErrorKindModel::IdentifierNotFound => "Identifier not found"@,
        ErrorKindModel::IdentifierIsKeyword => "Expected identifier, found keyword"@,
        ErrorKindModel::InvalidAssignment(a, b) => "Cannot assign to a variable of type '"@ + a
            + "' a value of type '"@ + b + "'"@,
        ErrorKindModel::ArgumentInvalidType(a, b) => "Expected type '"@ + a + "', found type '"@
            + b + "'"@,
    }
}

impl ErrorKind {
    /// Render the message of the footer line.
    pub fn message(&self) -> (r: String)
        ensures
            r@ == spec_kind_message(self@),
    {
        let mut s = String::new();
        match self {
            ErrorKind::InvalidBinaryOperation(op, l, r) => {
                s.append("Invalid operation '");
                s.append(binary_operator_symbol(*op));
                s.append("' for types '");
                s.append(l.as_str());
                s.append("' and '");
                s.append(r.as_str());
                s.append("'");
            },
            ErrorKind::InvalidUnaryOperation(op, t) => {
                s.append("Invalid operation '");
                s.append(unary_operator_symbol(*op));
                s.append("' for type '");
                s.append(t.as_str());
                s.append("'");
            },
            ErrorKind::IdentifierNotFound => {
                s.append("Identifier not found");
            },
            ErrorKind::IdentifierIsKeyword => {
                s.append("Expected identifier, found keyword");
            },
            ErrorKind::InvalidAssignment(a, b) => {
                s.append("Cannot assign to a variable of type '");
                s.append(a.as_str());
                s.append("' a value of type '");
                s.append(b.as_str());
                s.append("'");
            },
            ErrorKind::ArgumentInvalidType(a, b) => {
                s.append("Expected type '");
                s.append(a.as_str());
                s.append("', found type '");
                s.append(b.as_str());
                s.append("'");
            },
        }
        proof {
            assert(s@ =~= spec_kind_message(self@));
        }
        s
    }
}

/// A diagnosed fault: the kind, the file and source it was found in, the
/// span of the surrounding context and the precise span of the fault.
#[derive(Debug, Clone)]
pub struct Error {
    pub filename: String,
    pub source_code: String,
    pub kind: ErrorKind,
    pub context: Span,
    pub error: Span,
}

/// The model of an `Error`.
#[verifier::ext_equal]
pub struct ErrorModel {
    pub filename: Seq<char>,
    pub source_code: Seq<char>,
    pub kind: ErrorKindModel,
    pub context: Span,
    pub error: Span,
}

impl View for Error {
    type V = ErrorModel;

    open spec fn view(&self) -> ErrorModel {
        ErrorModel {
            filename: self.filename@,
            source_code: self.source_code@,
            kind: self.kind@,
            context: self.context,
            error: self.error,
        }
    }
}

/// Number of '\n' characters among the first `i` characters of `s`.
pub open spec fn spec_newline_count(s: Seq<char>, i: int) -> int
    decreases i,
{
    if i <= 0 {
        0
    } else {
        spec_newline_count(s, i - 1) + if s[i - 1] == '\n' {
            1int
        } else {
            0int
        }
    }
}

/// What `str::lines().count()` yields for `s`: a trailing newline opens
/// no further line, and the empty string has no lines.
pub open spec fn spec_line_count(s: Seq<char>) -> int {
    if s.len() == 0 {
        0
    } else if s.last() == '\n' {
        spec_newline_count(s, s.len() as int)
    } else {
        spec_newline_count(s, s.len() as int) + 1
    }
}

/// The line-number gutter: the line number right-aligned to one more
/// than `pad` characters, then `"| "`.
pub open spec fn spec_gutter(line: nat, pad: nat) -> Seq<char> {
    let d = spec_dec_digits(line);
    let w = if d.len() < pad + 1 {
        pad + 1
    } else {
        d.len()
    };
    spec_spaces((w - d.len()) as nat) + d + "| "@
}

/// Scanning for the line that holds the byte offset `ctx_start`:
/// starting at character `i` with current line number `line` and line
/// anchor `anchor`, yields the final line number and the index of the
/// first character of that line.
pub open spec fn spec_scan_start(
    s: Seq<char>,
    ctx_start: int,
    i: int,
    line: int,
    anchor: int,
) -> (int, int)
    decreases s.len() - i,
{
    if i < 0 || i >= s.len() {
        (line, anchor)
    } else if spec_char_byte_pos(s, i) == ctx_start {
        (line, anchor)
    } else if s[i] == '\n' {
        spec_scan_start(s, ctx_start, i + 1, line + 1, i + 1)
    } else {
        spec_scan_start(s, ctx_start, i + 1, line, anchor)
    }
}

/// Rendering the source lines of the context with a caret line under
/// each: walks `s` from character `i`, appending source characters to
/// `res` and to the pending caret line `buf` a `'^'` for characters
/// inside the error span. At each newline before the context's end the
/// caret line is flushed and a fresh gutter opened; the newline at or
/// after the context's end stops the walk. Yields the final `res` and
/// the pending `buf`.
pub open spec fn spec_render_lines(
    s: Seq<char>,
    ctx_end: int,
    err_start: int,
    err_end: int,
    pad: nat,
    i: int,
    line: int,
    res: Seq<char>,
    buf: Seq<char>,
) -> (Seq<char>, Seq<char>)
    decreases s.len() - i,
{
    if i < 0 || i >= s.len() || line < 0 {
        (res, buf)
    } else {
        let bp = spec_char_byte_pos(s, i);
        if s[i] == '\n' {
            if bp >= ctx_end {
                (res, buf)
            } else {
                spec_render_lines(
                    s,
                    ctx_end,
                    err_start,
                    err_end,
                    pad,
                    i + 1,
                    line + 1,
                    res + seq!['\n'] + buf + seq!['\n'] + spec_gutter((line + 1) as nat, pad),
                    spec_spaces(spec_gutter((line + 1) as nat, pad).len()),
                )
            }
        } else if bp < err_start {
            spec_render_lines(
                s,
                ctx_end,
                err_start,
                err_end,
                pad,
                i + 1,
                line,
                res.push(s[i]),
                buf.push(' '),
            )
        } else if bp < err_end {
            spec_render_lines(
                s,
                ctx_end,
                err_start,
                err_end,
                pad,
                i + 1,
                line,
                res.push(s[i]),
                buf.push('^'),
            )
        } else {
            spec_render_lines(s, ctx_end, err_start, err_end, pad, i + 1, line, res.push(s[i]), buf)
        }
    }
}

/// The full rendering of an error report.
pub open spec fn spec_format_error(e: ErrorModel) -> Seq<char> {
    let pad = spec_dec_digits(spec_line_count(e.source_code) as nat).len();
    let scanned = spec_scan_start(e.source_code, e.context.start as int, 0, 1, 0);
    let line1 = scanned.0;
    let anchor = scanned.1;
    let head = "In file: "@ + e.filename + "\nIn line "@ + spec_dec_digits(line1 as nat) + ":\n\n"@
        + spec_gutter(line1 as nat, pad);
    let buf0 = spec_spaces(spec_gutter(line1 as nat, pad).len());
    let rendered = spec_render_lines(
        e.source_code,
        e.context.end as int,
        e.error.start as int,
        e.error.end as int,
        pad,
        anchor,
        line1,
        Seq::<char>::empty(),
        buf0,
    );
    head + rendered.0 + seq!['\n'] + rendered.1 + "\n\nError: "@ + spec_kind_message(e.kind)
}

proof fn lemma_newline_count_le(s: Seq<char>, i: int)
    requires
        i <= s.len(),
    ensures
        spec_newline_count(s, i) <= if i < 0 {
            0int
        } else {
            i
        },
    decreases i,
{
    if i > 0 {
        lemma_newline_count_le(s, i - 1);
    }
}

impl Error {
    pub fn new(
        filename: String,
        source_code: String,
        kind: ErrorKind,
        context: Span,
        error: Span,
    ) -> (r: Error)
        ensures
            r@ == (ErrorModel {
                filename: filename@,
                source_code: source_code@,
                kind: kind@,
                context,
                error,
            }),
    {
        Error { filename, source_code, kind, context, error }
    }

    /// Render the full report: the file line, the line number, the
    /// source lines of the context with carets under the error span,
    /// and the `Error:` footer.
    pub fn format_to_string(&self) -> (r: String)
        ensures
            r@ == spec_format_error(self@),
    {
        let ghost s = self.source_code@;
        let v = chars_of(self.source_code.as_str());
        let n = v.len();

        // padding: the width of the count of source lines
        let mut newlines: usize = 0;
        let mut i: usize = 0;
        while i < n
            invariant
                i <= n,
                n == v.len(),
                v@ == s,
                newlines == spec_newline_count(s, i as int),
                newlines <= i,
            decreases n - i,
        {
            if v[i] == '\n' {
                newlines = newlines + 1;
            }
            i = i + 1;
        }
        let line_total: usize = if n == 0 {
            0
        } else if v[n - 1] == '\n' {
            newlines
        } else {
            proof {
                lemma_newline_count_le(s, n as int - 1);
            }
            newlines + 1
        };
        assert(line_total == spec_line_count(s));
        let pad = decimal_width(line_total as u128);

        // find the line holding the start of the context
        let mut line: u128 = 1;
        let mut anchor: usize = 0;
        let mut bp: u128 = 0;
        let mut i: usize = 0;
        let ghost cs = self.context.start as int;
        while i < n && !(bp == self.context.start as u128)
            invariant
                i <= n,
                n == v.len(),
                v@ == s,
                bp == spec_char_byte_pos(s, i as int),
                bp <= 4 * (i as int),
                1 <= line <= i + 1,
                anchor <= i,
                line <= anchor + 1,
                cs == self.context.start as int,
                spec_scan_start(s, cs, 0, 1, 0) == spec_scan_start(
                    s,
                    cs,
                    i as int,
                    line as int,
                    anchor as int,
                ),
            decreases n - i,
        {
            let ghost prev_i = i as int;
            let ghost prev_line = line as int;
            let ghost prev_anchor = anchor as int;
            if v[i] == '\n' {
                line = line + 1;
                anchor = i + 1;
            }
            bp = bp + utf8_width(v[i]) as u128;
            i = i + 1;
            proof {
                assert(spec_scan_start(s, cs, prev_i, prev_line, prev_anchor)
                    == spec_scan_start(s, cs, i as int, line as int, anchor as int));
            }
        }
        proof {
            assert(spec_scan_start(s, cs, i as int, line as int, anchor as int) == (
                line as int,
                anchor as int,
            ));
        }
        let ghost line1 = line as int;

        // head
        let mut result = String::new();
        result.append("In file: ");
        result.append(self.filename.as_str());
        result.append("\nIn line ");
        push_decimal(&mut result, line);
        result.append(":\n\n");
        push_gutter(&mut result, line, pad);
        let mut buffer = String::new();
        push_gutter_blank(&mut buffer, line, pad);
        let ghost head = "In file: "@ + self.filename@ + "\nIn line "@ + spec_dec_digits(
            line as nat,
        ) + ":\n\n"@ + spec_gutter(line as nat, pad as nat);
        proof {
            assert(result@ =~= head);
        }

        // walk the context's lines, building carets under the error span
        let ghost ce = self.context.end as int;
        let ghost es = self.error.start as int;
        let ghost ee = self.error.end as int;
        let ghost buf0 = buffer@;
        let mut i: usize = anchor;
        let mut bp: u128 = byte_pos_of(&v, anchor);
        let ghost mark = result@;
        let ghost mut cur = Seq::<char>::empty();
        loop
            invariant
                anchor <= i <= n,
                n == v.len(),
                v@ == s,
                bp == spec_char_byte_pos(s, i as int),
                bp <= 4 * (i as int),
                1 <= line <= i + 1,
                pad <= 39,
                ce == self.context.end as int,
                es == self.error.start as int,
                ee == self.error.end as int,
                result@ == mark + cur,
                spec_render_lines(
                    s,
                    ce,
                    es,
                    ee,
                    pad as nat,
                    anchor as int,
                    line1,
                    Seq::<char>::empty(),
                    buf0,
                ) == spec_render_lines(
                    s,
                    ce,
                    es,
                    ee,
                    pad as nat,
                    i as int,
                    line as int,
                    cur,
                    buffer@,
                ),
            ensures
                result@ == mark + cur,
                (cur, buffer@) == spec_render_lines(
                    s,
                    ce,
                    es,
                    ee,
                    pad as nat,
                    anchor as int,
                    line1,
                    Seq::<char>::empty(),
                    buf0,
                ),
            decreases n - i,
        {
            if i >= n {
                proof {
                    assert(spec_render_lines(s, ce, es, ee, pad as nat, i as int, line as int,
                        cur, buffer@) == (cur, buffer@));
                }
                break;
            }
            let c = v[i];
            let ghost gutter_next = spec_gutter((line + 1) as nat, pad as nat);
            let ghost old_cur = cur;
            let ghost old_buf = buffer@;
            let ghost prev_i = i as int;
            let ghost prev_line = line as int;
            if c == '\n' {
                if bp >= self.context.end as u128 {
                    proof {
                        assert(spec_render_lines(s, ce, es, ee, pad as nat, i as int,
                            line as int, cur, buffer@) == (cur, buffer@));
                    }
                    break;
                }
                line = line + 1;
                result.push('\n');
                result.append(buffer.as_str());
                result.push('\n');
                push_gutter(&mut result, line, pad);
                proof {
                    cur = result@.skip(mark.len() as int);
                    assert(result@ =~= mark + cur);
                    assert(cur =~= old_cur + seq!['\n'] + old_buf + seq!['\n'] + gutter_next);
                }
                buffer = String::new();
                push_gutter_blank(&mut buffer, line, pad);
                proof {
                    assert(spec_render_lines(s, ce, es, ee, pad as nat, prev_i, prev_line,
                        old_cur, old_buf) == spec_render_lines(s, ce, es, ee, pad as nat,
                        prev_i + 1, line as int, cur, buffer@));
                }
            } else if bp < self.error.start as u128 {
                result.push(c);
                buffer.push(' ');
                proof {
                    cur = cur.push(c);
                    assert(result@ =~= mark + cur);
                    assert(spec_render_lines(s, ce, es, ee, pad as nat, prev_i, prev_line,
                        old_cur, old_buf) == spec_render_lines(s, ce, es, ee, pad as nat,
                        prev_i + 1, line as int, cur, buffer@));
                }
            } else if bp < self.error.end as u128 {
                result.push(c);
                buffer.push('^');
                proof {
                    cur = cur.push(c);
                    assert(result@ =~= mark + cur);
                    assert(spec_render_lines(s, ce, es, ee, pad as nat, prev_i, prev_line,
                        old_cur, old_buf) == spec_render_lines(s, ce, es, ee, pad as nat,
                        prev_i + 1, line as int, cur, buffer@));
                }
            } else {
                result.push(c);
                proof {
                    cur = cur.push(c);
                    assert(result@ =~= mark + cur);
                    assert(spec_render_lines(s, ce, es, ee, pad as nat, prev_i, prev_line,
                        old_cur, old_buf) == spec_render_lines(s, ce, es, ee, pad as nat,
                        prev_i + 1, line as int, cur, buffer@));
                }
            }
            bp = bp + utf8_width(c) as u128;
            i = i + 1;
        }

        result.push('\n');
        result.append(buffer.as_str());
        result.append("\n\nError: ");
        let msg = self.kind.message();
        result.append(msg.as_str());
        proof {
            assert(result@ =~= spec_format_error(self@));
        }
        result
    }
}

/// Byte offset of character `i` of `v`.
fn byte_pos_of(v: &Vec<char>, i: usize) -> (bp: u128)
    requires
        i <= v@.len(),
    ensures
        bp == spec_char_byte_pos(v@, i as int),
        bp <= 4 * (i as int),
{
    let mut bp: u128 = 0;
    let mut k: usize = 0;
    while k < i
        invariant
            k <= i <= v@.len(),
            bp == spec_char_byte_pos(v@, k as int),
            bp <= 4 * (k as int),
        decreases i - k,
    {
        bp = bp + utf8_width(v[k]) as u128;
        k = k + 1;
    }
    bp
}

/// Append the line-number gutter for `line` to `s`.
fn push_gutter(s: &mut String, line: u128, pad: usize)
    requires
        pad <= 39,
    ensures
        final(s)@ == old(s)@ + spec_gutter(line as nat, pad as nat),
{
    let dw = decimal_width(line);
    let w = if dw < pad + 1 {
        pad + 1
    } else {
        dw
    };
    push_spaces(s, w - dw);
    push_decimal(s, line as u128);
    s.append("| ");
    proof {
        assert(final(s)@ =~= old(s)@ + spec_gutter(line as nat, pad as nat));
    }
}

/// Append as many spaces as the gutter for `line` is wide.
fn push_gutter_blank(s: &mut String, line: u128, pad: usize)
    requires
        pad <= 39,
    ensures
        final(s)@ == old(s)@ + spec_spaces(spec_gutter(line as nat, pad as nat).len()),
{
    let dw = decimal_width(line);
    let w = if dw < pad + 1 {
        pad + 1
    } else {
        dw
    };
    push_spaces(s, w + 2);
    proof {
        reveal_strlit("| ");
        assert(spec_gutter(line as nat, pad as nat).len() == w + 2);
        assert(final(s)@ =~= old(s)@ + spec_spaces(spec_gutter(line as nat, pad as nat).len()));
    }
}

} // verus!
