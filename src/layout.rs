use vstd::prelude::*;
use vstd::utf8::encode_utf8;
use crate::ast::{
    AssignOp, Ending, Expression, ExpressionKind, RenderError, Span, Statement, StatementKind,
    Variable,
};

verus! {

/// The cursor of a traversal, as mathematical values: the line and the column
/// up to which text has been emitted.
pub struct Mark {
    pub line: int,
    pub column: int,
}

/// A rendered fragment and the cursor that it leaves behind.
pub type Step = (Seq<char>, Mark);

/// How many columns a piece of text occupies: its length in UTF-8 bytes.
pub open spec fn width(s: Seq<char>) -> int {
    encode_utf8(s).len() as int
}

pub open spec fn spaces(n: int) -> Seq<char> {
    Seq::new(n as nat, |i: int| ' ')
}

/// Emitting a piece of text moves the cursor right by its width.
pub open spec fn emit(p: Seq<char>, m: Mark) -> Step {
    (p, Mark { line: m.line, column: m.column + width(p) })
}

/// Whether emitting `p` at `m` keeps the column within a machine word.
pub open spec fn emit_fits(p: Seq<char>, m: Mark) -> bool {
    m.column + width(p) <= usize::MAX
}

/// Before a node's content: one newline when the node starts on a later line.
pub open spec fn lead(span: Span, m: Mark) -> Step {
    if span.start.line > m.line {
        ("\n"@, Mark { line: span.start.line as int, column: 0 })
    } else {
        (Seq::empty(), m)
    }
}

/// After a node's content: spaces up to the node's recorded end column, if the
/// content fell short of it; nothing otherwise.
pub open spec fn pad(span: Span, m: Mark) -> Step {
    if span.end.column > m.column {
        (spaces(span.end.column - m.column), Mark { line: m.line, column: span.end.column as int })
    } else {
        (Seq::empty(), m)
    }
}

/// Lead, content, then padding: the layout rule shared by every node.
pub open spec fn framed(span: Span, pre: Seq<char>, body: Step) -> Step {
    let post = pad(span, body.1);
    (pre + body.0 + post.0, post.1)
}

/// The text that stands between the two sides of an assignment.
pub open spec fn op_text(op: AssignOp) -> Seq<char> {
    match op {
        AssignOp::Assign => " = "@,
        AssignOp::Reference => " = &"@,
        AssignOp::Add => " += "@,
        AssignOp::Sub => " -= "@,
        AssignOp::Mul => " *= "@,
        AssignOp::Div => " /= "@,
        AssignOp::Mod => " %= "@,
        AssignOp::Pow => " **= "@,
        AssignOp::Concat => " .= "@,
        AssignOp::BitAnd => " &= "@,
        AssignOp::BitOr => " |= "@,
        AssignOp::BitXor => " ^= "@,
        AssignOp::ShiftLeft => " <<= "@,
        AssignOp::ShiftRight => " >>= "@,
        AssignOp::Coalesce => " ??= "@,
    }
}

/// The text of a statement's terminator, as it stood in the source.
pub open spec fn ending_text(e: Ending) -> Seq<char> {
    match e {
        Ending::Semicolon => ";"@,
        Ending::CloseTag => "?>"@,
        Ending::Missing => ""@,
    }
}

/// The text of a variable and the cursor after it.
pub open spec fn var_out(v: Variable, m: Mark) -> Step
    decreases v,
{
    match v {
        Variable::Simple(name) => emit(name@, m),
        Variable::Indirect(inner) => {
            let d = emit("$"@, m);
            let r = var_out(*inner, d.1);
            (d.0 + r.0, r.1)
        },
        Variable::Braced(e) => {
            let o = emit("${"@, m);
            let r = expr_out(*e, o.1);
            let c = emit("}"@, r.1);
            (o.0 + r.0 + c.0, c.1)
        },
    }
}

/// The content of an expression, without its own lead and padding.
pub open spec fn expr_body(e: Expression, m: Mark) -> Step
    decreases e, 0int,
{
    match e.kind {
        ExpressionKind::Literal(Some(text)) => emit(text@, m),
        ExpressionKind::Literal(None) => (Seq::empty(), m),
        ExpressionKind::Variable(v) => var_out(v, m),
        ExpressionKind::Assignment { op, left, right } => {
            let l = expr_out(*left, m);
            let o = emit(op_text(op), l.1);
            let r = expr_out(*right, o.1);
            (l.0 + o.0 + r.0, r.1)
        },
        ExpressionKind::Other(_) => (Seq::empty(), m),
    }
}

/// The text of an expression and the cursor after it.
pub open spec fn expr_out(e: Expression, m: Mark) -> Step
    decreases e, 1int,
{
    let pre = lead(e.span, m);
    framed(e.span, pre.0, expr_body(e, pre.1))
}

/// The text of a sequence of expressions rendered one after another.
pub open spec fn exprs_out(es: Seq<Expression>, m: Mark) -> Step
    decreases es.len(),
{
    if es.len() == 0 {
        (Seq::empty(), m)
    } else {
        let a = exprs_out(es.drop_last(), m);
        let b = expr_out(es.last(), a.1);
        (a.0 + b.0, b.1)
    }
}

/// The content of a statement, without its own lead and padding.
pub open spec fn stmt_body(s: Statement, m: Mark) -> Step {
    match s.kind {
        StatementKind::FullOpeningTag => emit("<?php"@, m),
        StatementKind::ShortOpeningTag => emit("<?"@, m),
        StatementKind::EchoOpeningTag => emit("<?="@, m),
        StatementKind::ClosingTag => emit("?>"@, m),
        StatementKind::InlineHtml(Some(text)) => emit(text@, m),
        StatementKind::InlineHtml(None) => (Seq::empty(), m),
        StatementKind::Echo { values, ending } => {
            let k = emit("echo "@, m);
            let v = exprs_out(values@, k.1);
            let t = emit(ending_text(ending), v.1);
            (k.0 + v.0 + t.0, t.1)
        },
        StatementKind::Expression { expression, ending } => {
            let x = expr_out(expression, m);
            let t = emit(ending_text(ending), x.1);
            (x.0 + t.0, t.1)
        },
        StatementKind::Other(_) => (Seq::empty(), m),
    }
}

/// The text of a statement and the cursor after it.
pub open spec fn stmt_out(s: Statement, m: Mark) -> Step {
    let pre = lead(s.span, m);
    framed(s.span, pre.0, stmt_body(s, pre.1))
}

/// The text of a document: its statements rendered in order from `m`.
pub open spec fn doc_out(ss: Seq<Statement>, m: Mark) -> Step
    decreases ss.len(),
{
    if ss.len() == 0 {
        (Seq::empty(), m)
    } else {
        let a = doc_out(ss.drop_last(), m);
        let b = stmt_out(ss.last(), a.1);
        (a.0 + b.0, b.1)
    }
}

/// Whether every column reached while rendering a variable fits in a `usize`.
pub open spec fn var_fits(v: Variable, m: Mark) -> bool
    decreases v,
{
    match v {
        Variable::Simple(name) => emit_fits(name@, m),
        Variable::Indirect(inner) => emit_fits("$"@, m) && var_fits(*inner, emit("$"@, m).1),
        Variable::Braced(e) => {
            let o = emit("${"@, m);
            &&& emit_fits("${"@, m)
            &&& expr_fits(*e, o.1)
            &&& emit_fits("}"@, expr_out(*e, o.1).1)
        },
    }
}

/// Whether every column reached while rendering an expression fits in a `usize`.
pub open spec fn expr_fits(e: Expression, m: Mark) -> bool
    decreases e,
{
    let n = lead(e.span, m).1;
    match e.kind {
        ExpressionKind::Literal(Some(text)) => emit_fits(text@, n),
        ExpressionKind::Literal(None) => true,
        ExpressionKind::Variable(v) => var_fits(v, n),
        ExpressionKind::Assignment { op, left, right } => {
            let l = expr_out(*left, n);
            &&& expr_fits(*left, n)
            &&& emit_fits(op_text(op), l.1)
            &&& expr_fits(*right, emit(op_text(op), l.1).1)
        },
        ExpressionKind::Other(_) => true,
    }
}

pub open spec fn exprs_fit(es: Seq<Expression>, m: Mark) -> bool
    decreases es.len(),
{
    es.len() == 0 || (exprs_fit(es.drop_last(), m) && expr_fits(
        es.last(),
        exprs_out(es.drop_last(), m).1,
    ))
}

/// Whether every column reached while rendering a statement fits in a `usize`.
pub open spec fn stmt_fits(s: Statement, m: Mark) -> bool {
    let n = lead(s.span, m).1;
    match s.kind {
        StatementKind::FullOpeningTag => emit_fits("<?php"@, n),
        StatementKind::ShortOpeningTag => emit_fits("<?"@, n),
        StatementKind::EchoOpeningTag => emit_fits("<?="@, n),
        StatementKind::ClosingTag => emit_fits("?>"@, n),
        StatementKind::InlineHtml(Some(text)) => emit_fits(text@, n),
        StatementKind::InlineHtml(None) => true,
        StatementKind::Echo { values, ending } => {
            let k = emit("echo "@, n);
            &&& emit_fits("echo "@, n)
            &&& exprs_fit(values@, k.1)
            &&& emit_fits(ending_text(ending), exprs_out(values@, k.1).1)
        },
        StatementKind::Expression { expression, ending } => {
            &&& expr_fits(expression, n)
            &&& emit_fits(ending_text(ending), expr_out(expression, n).1)
        },
        StatementKind::Other(_) => true,
    }
}

/// Whether every column reached while rendering a document fits in a `usize`.
pub open spec fn doc_fits(ss: Seq<Statement>, m: Mark) -> bool
    decreases ss.len(),
{
    ss.len() == 0 || (doc_fits(ss.drop_last(), m) && stmt_fits(
        ss.last(),
        doc_out(ss.drop_last(), m).1,
    ))
}

/// The first node without a renderer in a variable, in document order.
pub open spec fn var_unsupported(v: Variable) -> Option<RenderError>
    decreases v,
{
    match v {
        Variable::Simple(_) => None,
        Variable::Indirect(inner) => var_unsupported(*inner),
        Variable::Braced(e) => expr_unsupported(*e),
    }
}

/// The first node without a renderer in an expression, in document order.
pub open spec fn expr_unsupported(e: Expression) -> Option<RenderError>
    decreases e,
{
    match e.kind {
        ExpressionKind::Literal(_) => None,
        ExpressionKind::Variable(v) => var_unsupported(v),
        ExpressionKind::Assignment { op, left, right } => {
            if expr_unsupported(*left) is Some {
                expr_unsupported(*left)
            } else {
                expr_unsupported(*right)
            }
        },
        ExpressionKind::Other(kind) => Some(RenderError::UnsupportedNodeKind { kind, span: e.span }),
    }
}

pub open spec fn exprs_unsupported(es: Seq<Expression>) -> Option<RenderError>
    decreases es.len(),
{
    if es.len() == 0 {
        None
    } else if exprs_unsupported(es.drop_last()) is Some {
        exprs_unsupported(es.drop_last())
    } else {
        expr_unsupported(es.last())
    }
}

/// The first node without a renderer in a statement, in document order.
pub open spec fn stmt_unsupported(s: Statement) -> Option<RenderError> {
    match s.kind {
        StatementKind::Echo { values, .. } => exprs_unsupported(values@),
        StatementKind::Expression { expression, .. } => expr_unsupported(expression),
        StatementKind::Other(kind) => Some(RenderError::UnsupportedNodeKind { kind, span: s.span }),
        StatementKind::FullOpeningTag => None,
        StatementKind::ShortOpeningTag => None,
        StatementKind::EchoOpeningTag => None,
        StatementKind::ClosingTag => None,
        StatementKind::InlineHtml(_) => None,
    }
}

/// The first node without a renderer in a document, in document order.
pub open spec fn doc_unsupported(ss: Seq<Statement>) -> Option<RenderError>
    decreases ss.len(),
{
    if ss.len() == 0 {
        None
    } else if doc_unsupported(ss.drop_last()) is Some {
        doc_unsupported(ss.drop_last())
    } else {
        stmt_unsupported(ss.last())
    }
}

} // verus!
