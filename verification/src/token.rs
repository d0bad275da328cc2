//! Tokens produced by the lexer.
use vstd::prelude::*;

verus! {

/// A position in the source: line and column, both counted from one.
#[derive(Debug, Clone, Copy, PartialEq, Eq)]
pub struct Span {
    pub line: usize,
    pub column: usize,
}

impl Span {
    pub fn new(line: usize, column: usize) -> (s: Self)
        ensures
            s.line == line,
            s.column == column,
    {
        Span { line, column }
    }
}

/// A literal value as written in the source.
///
/// A number with a decimal point is kept as the text it was written with (digits and
/// one point); a number without one is read as an integer.
#[derive(Debug, Clone, PartialEq)]
pub enum ValueLiteral {
    Int(i64),
    Float(String),
    Str(String),
}

/// The mathematical content of a [`ValueLiteral`].
pub enum ValueLiteralView {
    Int(i64),
    Float(Seq<char>),
    Str(Seq<char>),
}

impl View for ValueLiteral {
    type V = ValueLiteralView;

    open spec fn view(&self) -> ValueLiteralView {
        match self {
            ValueLiteral::Int(i) => ValueLiteralView::Int(*i),
            ValueLiteral::Float(s) => ValueLiteralView::Float(s@),
            ValueLiteral::Str(s) => ValueLiteralView::Str(s@),
        }
    }
}

/// The kind of a token.
#[derive(Debug, Clone, PartialEq)]
pub enum TokenKind {
    Doug { count: usize },
    Bald,
    Tts,
    Ttss,
    Assign,
    AddSet,
    SubSet,
    MulSet,
    DivSet,
    ModSet,
    Loop,
    Guod,
    Rigged,
    Prediction,
    Believers,
    Doubters,
    Win,
    Literal(ValueLiteral),
    LParen,
    RParen,
    LSquare,
    RSquare,
    ComparisonEqual,
    ComparisonNotEqual,
    ComparisonGreater,
    ComparisonLess,
    ComparisonGreaterEqual,
    ComparisonLessEqual,
}

/// The mathematical content of a [`TokenKind`]: a kind without a literal, or a literal.
pub enum TokenKindView {
    Plain(TokenKind),
    Literal(ValueLiteralView),
}

impl View for TokenKind {
    type V = TokenKindView;

    open spec fn view(&self) -> TokenKindView {
        match self {
            TokenKind::Literal(v) => TokenKindView::Literal(v@),
            _ => TokenKindView::Plain(*self),
        }
    }
}

/// A token and where it starts.
#[derive(Debug, Clone, PartialEq)]
pub struct Token {
    pub kind: TokenKind,
    pub span: Span,
}

/// The mathematical content of a [`Token`].
pub struct TokenView {
    pub kind: TokenKindView,
    pub line: nat,
    pub column: nat,
}

impl View for Token {
    type V = TokenView;

    open spec fn view(&self) -> TokenView {
        TokenView { kind: self.kind@, line: self.span.line as nat, column: self.span.column as nat }
    }
}

impl Token {
    pub fn new(kind: TokenKind, line: usize, column: usize) -> (t: Self)
        ensures
            t.kind == kind,
            t.span.line == line,
            t.span.column == column,
    {
        Token { kind, span: Span::new(line, column) }
    }
}

} // verus!
