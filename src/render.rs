use vstd::prelude::*;
use crate::ast::{
    AssignOp, Ending, Expression, ExpressionKind, RenderError, Span, Statement, StatementKind,
    Variable,
};
use crate::layout::{
    doc_fits, doc_out, doc_unsupported, emit, emit_fits, ending_text, expr_fits, expr_out,
    expr_unsupported, exprs_fit, exprs_out, exprs_unsupported, lead, op_text, pad, spaces,
    stmt_body, stmt_fits, stmt_out, stmt_unsupported, var_fits, var_out, var_unsupported, Mark,
};
use crate::scan::find_unsupported;

verus! {

/// The cursor of one rendering pass: the line and the column up to which text
/// has been emitted.
pub struct Reverse {
    pub line: usize,
    pub column: usize,
}

impl View for Reverse {
    type V = Mark;

    open spec fn view(&self) -> Mark {
        Mark { line: self.line as int, column: self.column as int }
    }
}

proof fn lemma_exprs_fit_prefix(es: Seq<Expression>, m: Mark, k: int)
    requires
        0 <= k <= es.len(),
        exprs_fit(es, m),
    ensures
        exprs_fit(es.take(k), m),
    decreases es.len() - k,
{
    if k == es.len() {
        assert(es.take(k) =~= es);
    } else {
        lemma_exprs_fit_prefix(es, m, k + 1);
        assert(es.take(k + 1).drop_last() =~= es.take(k));
    }
}

proof fn lemma_exprs_supported_prefix(es: Seq<Expression>, k: int)
    requires
        0 <= k <= es.len(),
        exprs_unsupported(es) is None,
    ensures
        exprs_unsupported(es.take(k)) is None,
    decreases es.len() - k,
{
    if k == es.len() {
        assert(es.take(k) =~= es);
    } else {
        lemma_exprs_supported_prefix(es, k + 1);
        assert(es.take(k + 1).drop_last() =~= es.take(k));
    }
}

proof fn lemma_doc_fits_prefix(ss: Seq<Statement>, m: Mark, k: int)
    requires
        0 <= k <= ss.len(),
        doc_fits(ss, m),
    ensures
        doc_fits(ss.take(k), m),
    decreases ss.len() - k,
{
    if k == ss.len() {
        assert(ss.take(k) =~= ss);
    } else {
        lemma_doc_fits_prefix(ss, m, k + 1);
        assert(ss.take(k + 1).drop_last() =~= ss.take(k));
    }
}

proof fn lemma_doc_supported_prefix(ss: Seq<Statement>, k: int)
    requires
        0 <= k <= ss.len(),
        doc_unsupported(ss) is None,
    ensures
        doc_unsupported(ss.take(k)) is None,
    decreases ss.len() - k,
{
    if k == ss.len() {
        assert(ss.take(k) =~= ss);
    } else {
        lemma_doc_supported_prefix(ss, k + 1);
        assert(ss.take(k + 1).drop_last() =~= ss.take(k));
    }
}

fn op_str(op: AssignOp) -> (r: &'static str)
    ensures
        r@ == op_text(op),
{
    match op {
        AssignOp::Assign => " = ",
        AssignOp::Reference => " = &",
        AssignOp::Add => " += ",
        AssignOp::Sub => " -= ",
        AssignOp::Mul => " *= ",
        AssignOp::Div => " /= ",
        AssignOp::Mod => " %= ",
        AssignOp::Pow => " **= ",
        AssignOp::Concat => " .= ",
        AssignOp::BitAnd => " &= ",
        AssignOp::BitOr => " |= ",
        AssignOp::BitXor => " ^= ",
        AssignOp::ShiftLeft => " <<= ",
        AssignOp::ShiftRight => " >>= ",
        AssignOp::Coalesce => " ??= ",
    }
}

fn ending_str(e: Ending) -> (r: &'static str)
    ensures
        r@ == ending_text(e),
{
    match e {
        Ending::Semicolon => ";",
        Ending::CloseTag => "?>",
        Ending::Missing => "",
    }
}

impl Reverse {
    /// A cursor at the start of a document: line 1, column 0.
    pub fn new() -> (r: Self)
        ensures
            r.line == 1,
            r.column == 0,
    {
        Self { line: 1, column: 0 }
    }

    fn emit(&mut self, out: &mut String, piece: &str)
        requires
            emit_fits(piece@, old(self)@),
        ensures
            final(out)@ == old(out)@ + piece@,
            final(self)@ == emit(piece@, old(self)@).1,
    {
        out.append(piece);
        self.column = self.column + piece.len();
    }

    fn lead(&mut self, out: &mut String, span: &Span)
        ensures
            final(out)@ == old(out)@ + lead(*span, old(self)@).0,
            final(self)@ == lead(*span, old(self)@).1,
    {
        if span.start.line > self.line {
            out.append("\n");
            self.line = span.start.line;
            self.column = 0;
        } else {
            assert(out@ =~= out@ + Seq::<char>::empty());
        }
    }

    fn pad(&mut self, out: &mut String, span: &Span)
        ensures
            final(out)@ == old(out)@ + pad(*span, old(self)@).0,
            final(self)@ == pad(*span, old(self)@).1,
    {
        if span.end.column > self.column {
            let n = span.end.column - self.column;
            let ghost start = out@;
            let mut k: usize = 0;
            while k < n
                invariant
                    k <= n,
                    out@ == start + spaces(k as int),
                decreases n - k,
            {
                out.append(" ");
                proof {
                    reveal_strlit(" ");
                    assert(start + spaces(k as int) + " "@ =~= start + spaces(k + 1));
                }
                k = k + 1;
            }
            self.column = span.end.column;
        } else {
            assert(out@ =~= out@ + Seq::<char>::empty());
        }
    }

    /// Renders a variable; only an expression inside braces has a span of its own.
    pub fn var_to_code(&mut self, v: &Variable) -> (r: String)
        requires
            var_unsupported(*v) is None,
            var_fits(*v, old(self)@),
        ensures
            r@ == var_out(*v, old(self)@).0,
            final(self)@ == var_out(*v, old(self)@).1,
        decreases v,
    {
        let mut result = String::new();
        match v {
            Variable::Simple(name) => {
                self.emit(&mut result, name.as_str());
            },
            Variable::Indirect(inner) => {
                self.emit(&mut result, "$");
                let t = self.var_to_code(inner);
                result.append(t.as_str());
            },
            Variable::Braced(e) => {
                self.emit(&mut result, "${");
                let t = self.expr_to_code(e);
                result.append(t.as_str());
                self.emit(&mut result, "}");
            },
        }
        result
    }

    /// Renders an expression: a newline if it starts on a later line, its
    /// content, then spaces up to its recorded end column.
    pub fn expr_to_code(&mut self, expr: &Expression) -> (r: String)
        requires
            expr_unsupported(*expr) is None,
            expr_fits(*expr, old(self)@),
        ensures
            r@ == expr_out(*expr, old(self)@).0,
            final(self)@ == expr_out(*expr, old(self)@).1,
        decreases expr,
    {
        let mut result = String::new();
        self.lead(&mut result, &expr.span);
        match &expr.kind {
            ExpressionKind::Literal(Some(text)) => {
                self.emit(&mut result, text.as_str());
            },
            ExpressionKind::Literal(None) => {},
            ExpressionKind::Variable(v) => {
                let t = self.var_to_code(v);
                result.append(t.as_str());
            },
            ExpressionKind::Assignment { op, left, right } => {
                let l = self.expr_to_code(left);
                result.append(l.as_str());
                self.emit(&mut result, op_str(*op));
                let r = self.expr_to_code(right);
                result.append(r.as_str());
            },
            ExpressionKind::Other(_) => {},
        }
        self.pad(&mut result, &expr.span);
        result
    }

    fn exprs_to_code(&mut self, out: &mut String, values: &Vec<Expression>)
        requires
            exprs_unsupported(values@) is None,
            exprs_fit(values@, old(self)@),
        ensures
            final(out)@ == old(out)@ + exprs_out(values@, old(self)@).0,
            final(self)@ == exprs_out(values@, old(self)@).1,
    {
        let ghost m0 = self@;
        let ghost start = out@;
        let mut i: usize = 0;
        assert(values@.take(0) =~= Seq::<Expression>::empty());
        assert(start =~= start + Seq::<char>::empty());
        while i < values.len()
            invariant
                0 <= i <= values.len(),
                exprs_unsupported(values@) is None,
                exprs_fit(values@, m0),
                out@ == start + exprs_out(values@.take(i as int), m0).0,
                self@ == exprs_out(values@.take(i as int), m0).1,
            decreases values.len() - i,
        {
            proof {
                lemma_exprs_fit_prefix(values@, m0, i + 1);
                lemma_exprs_supported_prefix(values@, i + 1);
                assert(values@.take(i + 1).drop_last() =~= values@.take(i as int));
            }
            let t = self.expr_to_code(&values[i]);
            out.append(t.as_str());
            proof {
                let a = exprs_out(values@.take(i as int), m0);
                assert(start + a.0 + t@ =~= start + (a.0 + t@));
            }
            i = i + 1;
        }
        assert(values@.take(i as int) =~= values@);
    }

    /// Renders a statement: a newline if it starts on a later line, its
    /// content, then spaces up to its recorded end column.
    pub fn stmt_to_code(&mut self, stmt: &Statement) -> (r: String)
        requires
            stmt_unsupported(*stmt) is None,
            stmt_fits(*stmt, old(self)@),
        ensures
            r@ == stmt_out(*stmt, old(self)@).0,
            final(self)@ == stmt_out(*stmt, old(self)@).1,
    {
        let mut result = String::new();
        self.lead(&mut result, &stmt.span);
        let ghost pre = result@;
        match &stmt.kind {
            StatementKind::FullOpeningTag => {
                self.emit(&mut result, "<?php");
            },
            StatementKind::ShortOpeningTag => {
                self.emit(&mut result, "<?");
            },
            StatementKind::EchoOpeningTag => {
                self.emit(&mut result, "<?=");
            },
            StatementKind::ClosingTag => {
                self.emit(&mut result, "?>");
            },
            StatementKind::InlineHtml(Some(text)) => {
                self.emit(&mut result, text.as_str());
            },
            StatementKind::InlineHtml(None) => {},
            StatementKind::Echo { values, ending } => {
                self.emit(&mut result, "echo ");
                self.exprs_to_code(&mut result, values);
                self.emit(&mut result, ending_str(*ending));
                assert(result@ =~= pre + stmt_body(*stmt, lead(stmt.span, old(self)@).1).0);
            },
            StatementKind::Expression { expression, ending } => {
                let t = self.expr_to_code(expression);
                result.append(t.as_str());
                self.emit(&mut result, ending_str(*ending));
                assert(result@ =~= pre + stmt_body(*stmt, lead(stmt.span, old(self)@).1).0);
            },
            StatementKind::Other(_) => {},
        }
        self.pad(&mut result, &stmt.span);
        result
    }

    /// Renders a document: its statements in order, each after the cursor
    /// that the one before left. A document holding a node without a
    /// renderer is refused as a whole, with the first such node in document
    /// order, and the cursor is left as it was.
    pub fn parse(&mut self, statements: Vec<Statement>) -> (r: Result<String, RenderError>)
        requires
            doc_fits(statements@, old(self)@),
        ensures
            match doc_unsupported(statements@) {
                Some(e) => r == Err::<String, RenderError>(e) && *final(self) == *old(self),
                None => r is Ok && r->Ok_0@ == doc_out(statements@, old(self)@).0
                    && final(self)@ == doc_out(statements@, old(self)@).1,
            },
    {
        let found = find_unsupported(&statements);
        if let Some(e) = found {
            return Err(e);
        }
        let ghost m0 = self@;
        let mut result = String::new();
        let mut i: usize = 0;
        assert(statements@.take(0) =~= Seq::<Statement>::empty());
        while i < statements.len()
            invariant
                0 <= i <= statements.len(),
                doc_unsupported(statements@) is None,
                doc_fits(statements@, m0),
                result@ == doc_out(statements@.take(i as int), m0).0,
                self@ == doc_out(statements@.take(i as int), m0).1,
            decreases statements.len() - i,
        {
            proof {
                lemma_doc_fits_prefix(statements@, m0, i + 1);
                lemma_doc_supported_prefix(statements@, i + 1);
                assert(statements@.take(i + 1).drop_last() =~= statements@.take(i as int));
            }
            let code = self.stmt_to_code(&statements[i]);
            result.append(code.as_str());
            i = i + 1;
        }
        assert(statements@.take(i as int) =~= statements@);
        Ok(result)
    }
}

/// Renders a document from a fresh cursor at line 1, column 0.
pub fn reverse(statements: Vec<Statement>) -> (r: Result<String, RenderError>)
    requires
        doc_fits(statements@, Mark { line: 1, column: 0 }),
    ensures
        match doc_unsupported(statements@) {
            Some(e) => r == Err::<String, RenderError>(e),
            None => r is Ok && r->Ok_0@ == doc_out(statements@, Mark { line: 1, column: 0 }).0,
        },
{
    let mut cursor = Reverse::new();
    cursor.parse(statements)
}

} // verus!
