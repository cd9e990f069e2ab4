use vstd::prelude::*;
use crate::ast::{Expression, ExpressionKind, RenderError, Statement, StatementKind, Variable};
use crate::layout::{
    doc_unsupported, expr_unsupported, exprs_unsupported, stmt_unsupported, var_unsupported,
};

verus! {

/// Once a prefix of a document holds an unsupported node, the document's first
/// unsupported node is that prefix's.
proof fn lemma_doc_first_in_prefix(ss: Seq<Statement>, k: int)
    requires
        0 <= k <= ss.len(),
        doc_unsupported(ss.take(k)) is Some,
    ensures
        doc_unsupported(ss) == doc_unsupported(ss.take(k)),
    decreases ss.len() - k,
{
    if k == ss.len() {
        assert(ss.take(k) =~= ss);
    } else {
        assert(ss.take(k + 1).drop_last() =~= ss.take(k));
        lemma_doc_first_in_prefix(ss, k + 1);
    }
}

proof fn lemma_exprs_first_in_prefix(es: Seq<Expression>, k: int)
    requires
        0 <= k <= es.len(),
        exprs_unsupported(es.take(k)) is Some,
    ensures
        exprs_unsupported(es) == exprs_unsupported(es.take(k)),
    decreases es.len() - k,
{
    if k == es.len() {
        assert(es.take(k) =~= es);
    } else {
        assert(es.take(k + 1).drop_last() =~= es.take(k));
        lemma_exprs_first_in_prefix(es, k + 1);
    }
}

fn unsupported(kind: &String, span: crate::ast::Span) -> (r: RenderError)
    ensures
        r == (RenderError::UnsupportedNodeKind { kind: *kind, span }),
{
    RenderError::UnsupportedNodeKind { kind: kind.clone(), span }
}

/// The first node without a renderer in a variable, in document order.
pub fn find_unsupported_var(v: &Variable) -> (r: Option<RenderError>)
    ensures
        r == var_unsupported(*v),
    decreases v,
{
    match v {
        Variable::Simple(_) => None,
        Variable::Indirect(inner) => find_unsupported_var(inner),
        Variable::Braced(e) => find_unsupported_expr(e),
    }
}

/// The first node without a renderer in an expression, in document order.
pub fn find_unsupported_expr(e: &Expression) -> (r: Option<RenderError>)
    ensures
        r == expr_unsupported(*e),
    decreases e,
{
    match &e.kind {
        ExpressionKind::Literal(_) => None,
        ExpressionKind::Variable(v) => find_unsupported_var(v),
        ExpressionKind::Assignment { op: _, left, right } => {
            let l = find_unsupported_expr(left);
            if l.is_some() {
                l
            } else {
                find_unsupported_expr(right)
            }
        },
        ExpressionKind::Other(kind) => Some(unsupported(kind, e.span)),
    }
}

/// The first node without a renderer among expressions, in order.
pub fn find_unsupported_exprs(es: &Vec<Expression>) -> (r: Option<RenderError>)
    ensures
        r == exprs_unsupported(es@),
{
    let mut i: usize = 0;
    while i < es.len()
        invariant
            0 <= i <= es.len(),
            exprs_unsupported(es@.take(i as int)) is None,
        decreases es.len() - i,
    {
        assert(es@.take(i + 1).drop_last() =~= es@.take(i as int));
        let r = find_unsupported_expr(&es[i]);
        if r.is_some() {
            proof {
                lemma_exprs_first_in_prefix(es@, i + 1);
            }
            return r;
        }
        i = i + 1;
    }
    assert(es@.take(i as int) =~= es@);
    None
}

/// The first node without a renderer in a statement, in document order.
pub fn find_unsupported_stmt(s: &Statement) -> (r: Option<RenderError>)
    ensures
        r == stmt_unsupported(*s),
{
    match &s.kind {
        StatementKind::Echo { values, ending: _ } => find_unsupported_exprs(values),
        StatementKind::Expression { expression, ending: _ } => find_unsupported_expr(expression),
        StatementKind::Other(kind) => Some(unsupported(kind, s.span)),
        StatementKind::FullOpeningTag => None,
        StatementKind::ShortOpeningTag => None,
        StatementKind::EchoOpeningTag => None,
        StatementKind::ClosingTag => None,
        StatementKind::InlineHtml(_) => None,
    }
}

/// The first node without a renderer in a document, in document order.
pub fn find_unsupported(ss: &Vec<Statement>) -> (r: Option<RenderError>)
    ensures
        r == doc_unsupported(ss@),
{
    let mut i: usize = 0;
    while i < ss.len()
        invariant
            0 <= i <= ss.len(),
            doc_unsupported(ss@.take(i as int)) is None,
        decreases ss.len() - i,
    {
        assert(ss@.take(i + 1).drop_last() =~= ss@.take(i as int));
        let r = find_unsupported_stmt(&ss[i]);
        if r.is_some() {
            proof {
                lemma_doc_first_in_prefix(ss@, i + 1);
            }
            return r;
        }
        i = i + 1;
    }
    assert(ss@.take(i as int) =~= ss@);
    None
}

} // verus!
