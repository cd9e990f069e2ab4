use vstd::prelude::*;

verus! {

/// A place in the source text: a 1-based line and a 0-based byte column.
#[derive(Clone, Copy, Debug, PartialEq, Eq)]
pub struct Position {
    pub line: usize,
    pub column: usize,
}

/// The extent of a node in the source text, as recorded by the parser.
#[derive(Clone, Copy, Debug, PartialEq, Eq)]
pub struct Span {
    pub start: Position,
    pub end: Position,
}

/// How a statement was terminated in the source.
#[derive(Clone, Copy, Debug, PartialEq, Eq)]
pub enum Ending {
    Semicolon,
    CloseTag,
    Missing,
}

/// The operator of an assignment expression.
#[derive(Clone, Copy, Debug, PartialEq, Eq)]
pub enum AssignOp {
    Assign,
    Reference,
    Add,
    Sub,
    Mul,
    Div,
    Mod,
    Pow,
    Concat,
    BitAnd,
    BitOr,
    BitXor,
    ShiftLeft,
    ShiftRight,
    Coalesce,
}

/// A variable reference.
#[derive(Debug, PartialEq, Eq)]
pub enum Variable {
    /// `$name`: the resolved text of the name, sigil included.
    Simple(String),
    /// `$$name`: a variable whose name is held by another variable.
    Indirect(Box<Variable>),
    /// `${expr}`: a variable whose name is computed by an expression.
    Braced(Box<Expression>),
}

#[derive(Debug, PartialEq, Eq)]
pub enum ExpressionKind {
    /// A literal, with its resolved source text (`None` when the symbol is absent).
    Literal(Option<String>),
    Variable(Variable),
    Assignment { op: AssignOp, left: Box<Expression>, right: Box<Expression> },
    /// A kind of the parser's schema that has no renderer; it carries the kind's name.
    Other(String),
}

#[derive(Debug, PartialEq, Eq)]
pub struct Expression {
    pub kind: ExpressionKind,
    pub span: Span,
}

#[derive(Debug, PartialEq, Eq)]
pub enum StatementKind {
    FullOpeningTag,
    ShortOpeningTag,
    EchoOpeningTag,
    ClosingTag,
    /// Raw text outside the tags, resolved (`None` when the symbol is absent).
    InlineHtml(Option<String>),
    Echo { values: Vec<Expression>, ending: Ending },
    Expression { expression: Expression, ending: Ending },
    /// A kind of the parser's schema that has no renderer; it carries the kind's name.
    Other(String),
}

#[derive(Debug, PartialEq, Eq)]
pub struct Statement {
    pub kind: StatementKind,
    pub span: Span,
}

/// Why a tree could not be rendered.
#[derive(Clone, Debug, PartialEq, Eq)]
pub enum RenderError {
    /// A node whose kind has no renderer: the kind's name and the node's span.
    UnsupportedNodeKind { kind: String, span: Span },
}

} // verus!
