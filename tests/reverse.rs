use pxp_reverse::ast::{
    AssignOp, Ending, Expression, ExpressionKind, Position, RenderError, Span, Statement,
    StatementKind, Variable,
};
use pxp_reverse::render::{reverse, Reverse};

fn span(l1: usize, c1: usize, l2: usize, c2: usize) -> Span {
    Span { start: Position { line: l1, column: c1 }, end: Position { line: l2, column: c2 } }
}

fn stmt(kind: StatementKind, s: Span) -> Statement {
    Statement { kind, span: s }
}

fn expr(kind: ExpressionKind, s: Span) -> Expression {
    Expression { kind, span: s }
}

fn lit(text: &str, s: Span) -> Expression {
    expr(ExpressionKind::Literal(Some(text.to_string())), s)
}

fn var(name: &str, s: Span) -> Expression {
    expr(ExpressionKind::Variable(Variable::Simple(name.to_string())), s)
}

fn open_tag() -> Statement {
    stmt(StatementKind::FullOpeningTag, span(1, 0, 1, 6))
}

#[test]
fn inline_html_then_tags() {
    let doc = vec![
        stmt(StatementKind::InlineHtml(Some("<html>".to_string())), span(1, 0, 1, 6)),
        stmt(StatementKind::FullOpeningTag, span(1, 6, 1, 12)),
        stmt(StatementKind::ClosingTag, span(1, 12, 1, 14)),
    ];
    assert_eq!(reverse(doc), Ok("<html><?php ?>".to_string()));
}

#[test]
fn echo_literal() {
    let doc = vec![
        open_tag(),
        stmt(
            StatementKind::Echo {
                values: vec![lit("'Hello, World!'", span(1, 11, 1, 26))],
                ending: Ending::Semicolon,
            },
            span(1, 6, 1, 27),
        ),
    ];
    assert_eq!(reverse(doc), Ok("<?php echo 'Hello, World!';".to_string()));
}

#[test]
fn simple_assignment() {
    let assign = expr(
        ExpressionKind::Assignment {
            op: AssignOp::Assign,
            left: Box::new(var("$foo", span(1, 6, 1, 10))),
            right: Box::new(lit("'bar'", span(1, 13, 1, 18))),
        },
        span(1, 6, 1, 18),
    );
    let doc = vec![
        open_tag(),
        stmt(
            StatementKind::Expression { expression: assign, ending: Ending::Semicolon },
            span(1, 6, 1, 19),
        ),
    ];
    assert_eq!(reverse(doc), Ok("<?php $foo = 'bar';".to_string()));
}

#[test]
fn blank_lines_collapse_to_one_newline() {
    let doc = vec![
        open_tag(),
        stmt(
            StatementKind::Echo { values: vec![lit("1", span(1, 11, 1, 12))], ending: Ending::Semicolon },
            span(1, 6, 1, 13),
        ),
        stmt(
            StatementKind::Echo { values: vec![lit("2", span(4, 5, 4, 6))], ending: Ending::Semicolon },
            span(4, 0, 4, 7),
        ),
    ];
    assert_eq!(reverse(doc), Ok("<?php echo 1;\necho 2;".to_string()));
}

#[test]
fn statement_on_next_line_restarts_column() {
    let doc = vec![
        stmt(StatementKind::ShortOpeningTag, span(1, 0, 1, 2)),
        stmt(
            StatementKind::Echo { values: vec![lit("'x'", span(2, 9, 2, 12))], ending: Ending::Semicolon },
            span(2, 4, 2, 13),
        ),
    ];
    // The leading indentation of a line is not reconstructed: the content
    // starts at column 0, and the literal is padded to its end column.
    assert_eq!(reverse(doc), Ok("<?\necho 'x'    ;".to_string()));
}

#[test]
fn padding_fills_to_end_column() {
    let doc = vec![
        stmt(StatementKind::EchoOpeningTag, span(1, 0, 1, 3)),
        stmt(StatementKind::InlineHtml(Some("ab".to_string())), span(1, 3, 1, 8)),
    ];
    assert_eq!(reverse(doc), Ok("<?=ab   ".to_string()));
}

#[test]
fn overshoot_is_neither_cut_nor_an_error() {
    let mut r = Reverse::new();
    let e = lit("'abcdef'", span(1, 0, 1, 3));
    let out = r.expr_to_code(&e);
    assert_eq!(out, "'abcdef'");
    assert_eq!(r.line, 1);
    assert_eq!(r.column, 8);
}

#[test]
fn absent_symbols_render_empty() {
    let doc = vec![
        stmt(StatementKind::InlineHtml(None), span(1, 0, 1, 0)),
        open_tag(),
        stmt(
            StatementKind::Echo {
                values: vec![expr(ExpressionKind::Literal(None), span(1, 11, 1, 11))],
                ending: Ending::Semicolon,
            },
            span(1, 6, 1, 12),
        ),
    ];
    assert_eq!(reverse(doc), Ok("<?php echo ;".to_string()));
}

#[test]
fn absent_symbol_still_padded() {
    let mut r = Reverse::new();
    let e = expr(ExpressionKind::Literal(None), span(1, 0, 1, 4));
    assert_eq!(r.expr_to_code(&e), "    ");
    assert_eq!(r.column, 4);
}

#[test]
fn column_counts_utf8_bytes() {
    let mut r = Reverse::new();
    let e = lit("'é'", span(1, 0, 1, 5));
    assert_eq!(r.expr_to_code(&e), "'é' ");
    assert_eq!(r.column, 5);
}

#[test]
fn compound_assignment_keeps_its_operator() {
    let assign = expr(
        ExpressionKind::Assignment {
            op: AssignOp::Concat,
            left: Box::new(var("$s", span(1, 6, 1, 8))),
            right: Box::new(lit("'x'", span(1, 12, 1, 15))),
        },
        span(1, 6, 1, 15),
    );
    let doc = vec![
        open_tag(),
        stmt(StatementKind::Expression { expression: assign, ending: Ending::Semicolon }, span(1, 6, 1, 16)),
    ];
    assert_eq!(reverse(doc), Ok("<?php $s .= 'x';".to_string()));
}

#[test]
fn every_assignment_operator_text() {
    let cases = vec![
        (AssignOp::Assign, "$a = 1"),
        (AssignOp::Reference, "$a = &1"),
        (AssignOp::Add, "$a += 1"),
        (AssignOp::Sub, "$a -= 1"),
        (AssignOp::Mul, "$a *= 1"),
        (AssignOp::Div, "$a /= 1"),
        (AssignOp::Mod, "$a %= 1"),
        (AssignOp::Pow, "$a **= 1"),
        (AssignOp::Concat, "$a .= 1"),
        (AssignOp::BitAnd, "$a &= 1"),
        (AssignOp::BitOr, "$a |= 1"),
        (AssignOp::BitXor, "$a ^= 1"),
        (AssignOp::ShiftLeft, "$a <<= 1"),
        (AssignOp::ShiftRight, "$a >>= 1"),
        (AssignOp::Coalesce, "$a ??= 1"),
    ];
    for (op, want) in cases {
        let mut r = Reverse::new();
        let e = expr(
            ExpressionKind::Assignment {
                op,
                left: Box::new(var("$a", span(1, 0, 1, 2))),
                right: Box::new(expr(ExpressionKind::Literal(Some("1".to_string())), span(1, 0, 1, 0))),
            },
            span(1, 0, 1, 0),
        );
        assert_eq!(r.expr_to_code(&e), want);
        assert_eq!(r.column, want.len());
    }
}

#[test]
fn indirect_and_braced_variables() {
    let indirect = expr(
        ExpressionKind::Variable(Variable::Indirect(Box::new(Variable::Simple("$name".to_string())))),
        span(1, 6, 1, 12),
    );
    let braced = expr(
        ExpressionKind::Variable(Variable::Braced(Box::new(lit("'k'", span(1, 15, 1, 18))))),
        span(1, 13, 1, 19),
    );
    let doc = vec![
        open_tag(),
        stmt(
            StatementKind::Echo { values: vec![indirect, braced], ending: Ending::Missing },
            span(1, 6, 1, 19),
        ),
    ];
    assert_eq!(reverse(doc), Ok("<?php echo $$name${'k'}".to_string()));
}

#[test]
fn close_tag_ending() {
    let doc = vec![
        open_tag(),
        stmt(
            StatementKind::Echo { values: vec![lit("1", span(1, 11, 1, 12))], ending: Ending::CloseTag },
            span(1, 6, 1, 14),
        ),
    ];
    assert_eq!(reverse(doc), Ok("<?php echo 1?>".to_string()));
}

#[test]
fn unsupported_statement_is_an_error() {
    let doc = vec![open_tag(), stmt(StatementKind::Other("Return".to_string()), span(2, 0, 2, 7))];
    assert_eq!(
        reverse(doc),
        Err(RenderError::UnsupportedNodeKind { kind: "Return".to_string(), span: span(2, 0, 2, 7) })
    );
}

#[test]
fn first_unsupported_in_document_order_is_reported() {
    let inner = expr(ExpressionKind::Other("Call".to_string()), span(1, 15, 1, 20));
    let braced = expr(ExpressionKind::Variable(Variable::Braced(Box::new(inner))), span(1, 13, 1, 21));
    let doc = vec![
        open_tag(),
        stmt(
            StatementKind::Echo {
                values: vec![lit("1", span(1, 11, 1, 12)), braced],
                ending: Ending::Semicolon,
            },
            span(1, 6, 1, 22),
        ),
        stmt(StatementKind::Other("Return".to_string()), span(2, 0, 2, 7)),
    ];
    assert_eq!(
        reverse(doc),
        Err(RenderError::UnsupportedNodeKind { kind: "Call".to_string(), span: span(1, 15, 1, 20) })
    );
}

#[test]
fn failed_render_leaves_cursor_alone() {
    let mut r = Reverse::new();
    r.line = 3;
    r.column = 4;
    let doc = vec![open_tag(), stmt(StatementKind::Other("Return".to_string()), span(5, 0, 5, 7))];
    assert!(r.parse(doc).is_err());
    assert_eq!(r.line, 3);
    assert_eq!(r.column, 4);
}

#[test]
fn cursor_snapshots_never_go_back() {
    let doc = vec![
        open_tag(),
        stmt(
            StatementKind::Echo { values: vec![lit("1", span(1, 11, 1, 12))], ending: Ending::Semicolon },
            span(1, 6, 1, 13),
        ),
        stmt(
            StatementKind::Echo { values: vec![lit("2", span(3, 5, 3, 6))], ending: Ending::Semicolon },
            span(3, 0, 3, 7),
        ),
        // A span that claims an earlier line does not move the cursor back.
        stmt(StatementKind::ClosingTag, span(2, 0, 2, 2)),
    ];
    let mut r = Reverse::new();
    let mut last = (r.line, r.column);
    for s in doc.iter() {
        r.stmt_to_code(s);
        let now = (r.line, r.column);
        assert!(last <= now);
        last = now;
    }
    assert_eq!(last, (3, 9));
}

#[test]
fn parse_continues_from_cursor() {
    let mut r = Reverse::new();
    let first = r.parse(vec![open_tag()]);
    assert_eq!(first, Ok("<?php ".to_string()));
    assert_eq!((r.line, r.column), (1, 6));
    let second = r.parse(vec![stmt(StatementKind::ClosingTag, span(1, 6, 1, 8))]);
    assert_eq!(second, Ok("?>".to_string()));
    assert_eq!((r.line, r.column), (1, 8));
}

#[test]
fn empty_document_renders_empty() {
    assert_eq!(reverse(vec![]), Ok(String::new()));
}

#[test]
fn new_cursor_starts_at_line_one() {
    let r = Reverse::new();
    assert_eq!((r.line, r.column), (1, 0));
}
