use vstd::prelude::*;
use crate::ast::{Expression, ExpressionKind, Span, Statement, StatementKind, Variable};
use crate::layout::{
    doc_out, emit, expr_body, expr_out, exprs_out, lead, pad, spaces, stmt_body, stmt_out,
    var_out, Mark,
};

verus! {

/// `a` is at or before `b` in document order: an earlier line, or the same
/// line and a column not to the right.
pub open spec fn at_or_before(a: Mark, b: Mark) -> bool {
    a.line < b.line || (a.line == b.line && a.column <= b.column)
}

proof fn lemma_emit_advances(p: Seq<char>, m: Mark)
    ensures
        at_or_before(m, emit(p, m).1),
{
}

proof fn lemma_framed_advances(span: Span, m: Mark, body_end: Mark)
    requires
        at_or_before(lead(span, m).1, body_end),
    ensures
        at_or_before(m, pad(span, body_end).1),
{
}

proof fn lemma_var_advances(v: Variable, m: Mark)
    ensures
        at_or_before(m, var_out(v, m).1),
    decreases v,
{
    match v {
        Variable::Simple(name) => {},
        Variable::Indirect(inner) => {
            lemma_var_advances(*inner, emit("$"@, m).1);
        },
        Variable::Braced(e) => {
            let o = emit("${"@, m);
            lemma_expr_advances(*e, o.1);
            lemma_emit_advances("}"@, expr_out(*e, o.1).1);
        },
    }
}

proof fn lemma_expr_advances(e: Expression, m: Mark)
    ensures
        at_or_before(m, expr_out(e, m).1),
    decreases e,
{
    let n = lead(e.span, m).1;
    match e.kind {
        ExpressionKind::Literal(_) => {},
        ExpressionKind::Variable(v) => {
            lemma_var_advances(v, n);
        },
        ExpressionKind::Assignment { op, left, right } => {
            let l = expr_out(*left, n);
            lemma_expr_advances(*left, n);
            lemma_expr_advances(*right, emit(crate::layout::op_text(op), l.1).1);
        },
        ExpressionKind::Other(_) => {},
    }
    lemma_framed_advances(e.span, m, expr_body(e, n).1);
}

proof fn lemma_exprs_advance(es: Seq<Expression>, m: Mark)
    ensures
        at_or_before(m, exprs_out(es, m).1),
    decreases es.len(),
{
    if es.len() > 0 {
        lemma_exprs_advance(es.drop_last(), m);
        lemma_expr_advances(es.last(), exprs_out(es.drop_last(), m).1);
    }
}

/// Rendering a statement never moves the cursor backwards in document order.
pub proof fn lemma_stmt_advances(s: Statement, m: Mark)
    ensures
        at_or_before(m, stmt_out(s, m).1),
{
    let n = lead(s.span, m).1;
    match s.kind {
        StatementKind::Echo { values, ending } => {
            let k = emit("echo "@, n);
            lemma_exprs_advance(values@, k.1);
        },
        StatementKind::Expression { expression, ending } => {
            lemma_expr_advances(expression, n);
        },
        _ => {},
    }
    lemma_framed_advances(s.span, m, stmt_body(s, n).1);
}

/// Across the rendering of a document, the cursor snapshots taken after each
/// top-level statement never go backwards: after `i` statements the cursor is
/// at or before where it is after `j >= i` statements, so in particular its
/// line never decreases.
pub proof fn lemma_cursor_monotone(ss: Seq<Statement>, m: Mark, i: int, j: int)
    requires
        0 <= i <= j <= ss.len(),
    ensures
        at_or_before(doc_out(ss.take(i), m).1, doc_out(ss.take(j), m).1),
        doc_out(ss.take(i), m).1.line <= doc_out(ss.take(j), m).1.line,
    decreases j - i,
{
    if i < j {
        lemma_cursor_monotone(ss, m, i, j - 1);
        assert(ss.take(j).drop_last() =~= ss.take(j - 1));
        lemma_stmt_advances(ss[j - 1], doc_out(ss.take(j - 1), m).1);
    }
}

/// Trailing padding is never negative: after a node's content, the node's
/// fragment only gains `max(0, end column - cursor column)` spaces, its
/// content is never cut, and the cursor ends at the larger of the two columns.
pub proof fn lemma_padding_never_truncates(span: Span, m: Mark)
    ensures
        ({
            let gap = if span.end.column > m.column { span.end.column - m.column } else { 0 };
            &&& pad(span, m).0 == spaces(gap)
            &&& pad(span, m).1.line == m.line
            &&& pad(span, m).1.column == if span.end.column > m.column {
                span.end.column as int
            } else {
                m.column
            }
        }),
{
    if span.end.column <= m.column {
        assert(spaces(0) =~= Seq::<char>::empty());
    }
}

/// An expression's fragment is its lead, then its whole content, then padding
/// of `max(0, end column - column after the content)` spaces.
pub proof fn lemma_expr_fragment(e: Expression, m: Mark)
    ensures
        ({
            let pre = lead(e.span, m);
            let body = expr_body(e, pre.1);
            let gap = if e.span.end.column > body.1.column { e.span.end.column - body.1.column } else { 0 };
            &&& expr_out(e, m).0 == pre.0 + body.0 + spaces(gap)
            &&& expr_out(e, m).1 == pad(e.span, body.1).1
        }),
{
    lemma_padding_never_truncates(e.span, expr_body(e, lead(e.span, m).1).1);
}

/// A statement's fragment is its lead, then its whole content, then padding
/// of `max(0, end column - column after the content)` spaces.
pub proof fn lemma_stmt_fragment(s: Statement, m: Mark)
    ensures
        ({
            let pre = lead(s.span, m);
            let body = stmt_body(s, pre.1);
            let gap = if s.span.end.column > body.1.column { s.span.end.column - body.1.column } else { 0 };
            &&& stmt_out(s, m).0 == pre.0 + body.0 + spaces(gap)
            &&& stmt_out(s, m).1 == pad(s.span, body.1).1
        }),
{
    lemma_padding_never_truncates(s.span, stmt_body(s, lead(s.span, m).1).1);
}

} // verus!
