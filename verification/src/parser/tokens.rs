//! The tokens the parser reads: the lexer's tokens, with each compound assignment
//! (`+set` and its kin) taken apart into its operator and a `set`.
use vstd::prelude::*;

use crate::lexer::token_views;
use crate::text::{int_decimal, push_chars, push_i64_decimal};
use crate::token::{Token, TokenKind, TokenKindView, TokenView, ValueLiteral, ValueLiteralView};
use crate::values::operator::operator_text;
use crate::values::Operator;

verus! {

/// What a parser token is.
#[derive(Debug, PartialEq)]
pub enum ParseKind {
    Tts,
    Ttss,
    Guod,
    Rigged,
    Assign,
    Loop,
    Prediction,
    Believers,
    Doubters,
    Win,
    Bald,
    Doug(usize),
    Operator(Operator),
    Literal(ValueLiteral),
    LParen,
    RParen,
    LSquare,
    RSquare,
}

/// The mathematical content of a [`ParseKind`].
pub enum ParseKindView {
    Tts,
    Ttss,
    Guod,
    Rigged,
    Assign,
    Loop,
    Prediction,
    Believers,
    Doubters,
    Win,
    Bald,
    Doug(usize),
    Operator(Operator),
    Literal(ValueLiteralView),
    LParen,
    RParen,
    LSquare,
    RSquare,
}

impl View for ParseKind {
    type V = ParseKindView;

    open spec fn view(&self) -> ParseKindView {
        match self {
            ParseKind::Tts => ParseKindView::Tts,
            ParseKind::Ttss => ParseKindView::Ttss,
            ParseKind::Guod => ParseKindView::Guod,
            ParseKind::Rigged => ParseKindView::Rigged,
            ParseKind::Assign => ParseKindView::Assign,
            ParseKind::Loop => ParseKindView::Loop,
            ParseKind::Prediction => ParseKindView::Prediction,
            ParseKind::Believers => ParseKindView::Believers,
            ParseKind::Doubters => ParseKindView::Doubters,
            ParseKind::Win => ParseKindView::Win,
            ParseKind::Bald => ParseKindView::Bald,
            ParseKind::Doug(c) => ParseKindView::Doug(*c),
            ParseKind::Operator(o) => ParseKindView::Operator(*o),
            ParseKind::Literal(l) => ParseKindView::Literal(l@),
            ParseKind::LParen => ParseKindView::LParen,
            ParseKind::RParen => ParseKindView::RParen,
            ParseKind::LSquare => ParseKindView::LSquare,
            ParseKind::RSquare => ParseKindView::RSquare,
        }
    }
}

/// A parser token and the source position of the token it comes from.
#[derive(Debug, PartialEq)]
pub struct ParseToken {
    pub kind: ParseKind,
    pub line: usize,
    pub column: usize,
}

/// The mathematical content of a [`ParseToken`].
pub struct ParseTokenView {
    pub kind: ParseKindView,
    pub line: nat,
    pub column: nat,
}

impl View for ParseToken {
    type V = ParseTokenView;

    open spec fn view(&self) -> ParseTokenView {
        ParseTokenView { kind: self.kind@, line: self.line as nat, column: self.column as nat }
    }
}

/// The views of a sequence of parser tokens.
pub open spec fn parse_token_views(ts: Seq<ParseToken>) -> Seq<ParseTokenView> {
    ts.map_values(|t: ParseToken| t@)
}

/// The parser tokens a lexer token kind stands for.
pub open spec fn expand_kind(k: TokenKindView) -> Seq<ParseKindView> {
    match k {
        TokenKindView::Literal(v) => seq![ParseKindView::Literal(v)],
        TokenKindView::Plain(p) => match p {
            TokenKind::Doug { count } => seq![ParseKindView::Doug(count)],
            TokenKind::Bald => seq![ParseKindView::Bald],
            TokenKind::Tts => seq![ParseKindView::Tts],
            TokenKind::Ttss => seq![ParseKindView::Ttss],
            TokenKind::Assign => seq![ParseKindView::Assign],
            TokenKind::AddSet => seq![ParseKindView::Operator(Operator::Plus), ParseKindView::Assign],
            TokenKind::SubSet => seq![ParseKindView::Operator(Operator::Minus), ParseKindView::Assign],
            TokenKind::MulSet => seq![ParseKindView::Operator(Operator::Multiply), ParseKindView::Assign],
            TokenKind::DivSet => seq![ParseKindView::Operator(Operator::Divide), ParseKindView::Assign],
            TokenKind::ModSet => seq![ParseKindView::Operator(Operator::Modulo), ParseKindView::Assign],
            TokenKind::Loop => seq![ParseKindView::Loop],
            TokenKind::Guod => seq![ParseKindView::Guod],
            TokenKind::Rigged => seq![ParseKindView::Rigged],
            TokenKind::Prediction => seq![ParseKindView::Prediction],
            TokenKind::Believers => seq![ParseKindView::Believers],
            TokenKind::Doubters => seq![ParseKindView::Doubters],
            TokenKind::Win => seq![ParseKindView::Win],
            TokenKind::Literal(v) => seq![ParseKindView::Literal(v@)],
            TokenKind::LParen => seq![ParseKindView::LParen],
            TokenKind::RParen => seq![ParseKindView::RParen],
            TokenKind::LSquare => seq![ParseKindView::LSquare],
            TokenKind::RSquare => seq![ParseKindView::RSquare],
            TokenKind::ComparisonEqual => seq![ParseKindView::Operator(Operator::Equals)],
            TokenKind::ComparisonNotEqual => seq![ParseKindView::Operator(Operator::NotEquals)],
            TokenKind::ComparisonGreater => seq![ParseKindView::Operator(Operator::Greater)],
            TokenKind::ComparisonGreaterEqual => seq![ParseKindView::Operator(Operator::GreaterEquals)],
            TokenKind::ComparisonLess => seq![ParseKindView::Operator(Operator::Less)],
            TokenKind::ComparisonLessEqual => seq![ParseKindView::Operator(Operator::LessEquals)],
        },
    }
}

/// The parser tokens of one lexer token, each at that token's position.
pub open spec fn expand_token(t: TokenView) -> Seq<ParseTokenView> {
    expand_kind(t.kind).map_values(|k: ParseKindView| ParseTokenView { kind: k, line: t.line, column: t.column })
}

/// The parser tokens of a sequence of lexer tokens, in order.
pub open spec fn expand(ts: Seq<TokenView>) -> Seq<ParseTokenView>
    decreases ts.len(),
{
    if ts.len() == 0 {
        Seq::empty()
    } else {
        expand(ts.drop_last()) + expand_token(ts.last())
    }
}

fn literal_copy(l: &ValueLiteral) -> (r: ValueLiteral)
    ensures
        r@ == l@,
{
    l.duplicate()
}

fn push_kind(out: &mut Vec<ParseToken>, kind: ParseKind, line: usize, column: usize)
    ensures
        final(out)@.len() == old(out)@.len() + 1,
        parse_token_views(final(out)@) == parse_token_views(old(out)@).push(
            ParseTokenView { kind: kind@, line: line as nat, column: column as nat },
        ),
{
    let ghost before = parse_token_views(out@);
    let ghost kv = kind@;
    out.push(ParseToken { kind, line, column });
    assert(parse_token_views(out@) =~= before.push(ParseTokenView { kind: kv, line: line as nat, column: column as nat }));
}

/// Appends the parser tokens of `t` to `out`.
fn expand_one(out: &mut Vec<ParseToken>, t: &Token)
    ensures
        parse_token_views(final(out)@) == parse_token_views(old(out)@) + expand_token(t@),
{
    let line = t.span.line;
    let column = t.span.column;
    let ghost before = parse_token_views(out@);
    let ghost tv = t@;
    let single: Option<ParseKind> = match &t.kind {
        TokenKind::Doug { count } => Some(ParseKind::Doug(*count)),
        TokenKind::Bald => Some(ParseKind::Bald),
        TokenKind::Tts => Some(ParseKind::Tts),
        TokenKind::Ttss => Some(ParseKind::Ttss),
        TokenKind::Assign => Some(ParseKind::Assign),
        TokenKind::Loop => Some(ParseKind::Loop),
        TokenKind::Guod => Some(ParseKind::Guod),
        TokenKind::Rigged => Some(ParseKind::Rigged),
        TokenKind::Prediction => Some(ParseKind::Prediction),
        TokenKind::Believers => Some(ParseKind::Believers),
        TokenKind::Doubters => Some(ParseKind::Doubters),
        TokenKind::Win => Some(ParseKind::Win),
        TokenKind::Literal(v) => Some(ParseKind::Literal(literal_copy(v))),
        TokenKind::LParen => Some(ParseKind::LParen),
        TokenKind::RParen => Some(ParseKind::RParen),
        TokenKind::LSquare => Some(ParseKind::LSquare),
        TokenKind::RSquare => Some(ParseKind::RSquare),
        TokenKind::ComparisonEqual => Some(ParseKind::Operator(Operator::Equals)),
        TokenKind::ComparisonNotEqual => Some(ParseKind::Operator(Operator::NotEquals)),
        TokenKind::ComparisonGreater => Some(ParseKind::Operator(Operator::Greater)),
        TokenKind::ComparisonGreaterEqual => Some(ParseKind::Operator(Operator::GreaterEquals)),
        TokenKind::ComparisonLess => Some(ParseKind::Operator(Operator::Less)),
        TokenKind::ComparisonLessEqual => Some(ParseKind::Operator(Operator::LessEquals)),
        _ => None,
    };
    match single {
        Some(k) => {
            let ghost kv = k@;
            assert(expand_kind(tv.kind) =~= seq![kv]);
            push_kind(out, k, line, column);
            assert(expand_token(tv) =~= seq![ParseTokenView { kind: kv, line: tv.line, column: tv.column }]);
        },
        None => {
            let op = match &t.kind {
                TokenKind::AddSet => Operator::Plus,
                TokenKind::SubSet => Operator::Minus,
                TokenKind::MulSet => Operator::Multiply,
                TokenKind::DivSet => Operator::Divide,
                _ => Operator::Modulo,
            };
            assert(expand_kind(tv.kind) =~= seq![ParseKindView::Operator(op), ParseKindView::Assign]);
            push_kind(out, ParseKind::Operator(op), line, column);
            push_kind(out, ParseKind::Assign, line, column);
            assert(expand_token(tv) =~= seq![
                ParseTokenView { kind: ParseKindView::Operator(op), line: tv.line, column: tv.column },
                ParseTokenView { kind: ParseKindView::Assign, line: tv.line, column: tv.column },
            ]);
        },
    }
    assert(parse_token_views(out@) =~= before + expand_token(tv));
}

/// The parser tokens of `tokens`, in order.
pub fn expand_tokens(tokens: &[Token]) -> (r: Vec<ParseToken>)
    ensures
        parse_token_views(r@) == expand(token_views(tokens@)),
{
    let mut out: Vec<ParseToken> = Vec::new();
    let mut i: usize = 0;
    assert(token_views(tokens@.take(0)) =~= Seq::<TokenView>::empty());
    assert(parse_token_views(out@) =~= Seq::<ParseTokenView>::empty());
    while i < tokens.len()
        invariant
            i <= tokens.len(),
            parse_token_views(out@) == expand(token_views(tokens@.take(i as int))),
        decreases tokens.len() - i,
    {
        let ghost prev = token_views(tokens@.take(i as int));
        expand_one(&mut out, &tokens[i]);
        assert(token_views(tokens@.take(i + 1)).drop_last() =~= prev);
        assert(token_views(tokens@.take(i + 1)).last() == tokens@[i as int]@);
        i = i + 1;
    }
    assert(tokens@.take(tokens.len() as int) =~= tokens@);
    out
}

/// The text a parser token is shown as in an error: its source text, with a string
/// literal between double quotes.
pub open spec fn kind_text(k: ParseKindView) -> Seq<char> {
    match k {
        ParseKindView::Tts => "tts"@,
        ParseKindView::Ttss => "ttss"@,
        ParseKindView::Guod => "guoD"@,
        ParseKindView::Rigged => "Rigged"@,
        ParseKindView::Assign => "set"@,
        ParseKindView::Loop => "loop"@,
        ParseKindView::Prediction => "prediction"@,
        ParseKindView::Believers => "Believers"@,
        ParseKindView::Doubters => "Doubters"@,
        ParseKindView::Win => "win"@,
        ParseKindView::Bald => "Bald"@,
        ParseKindView::Doug(c) => doug_text(c as nat),
        ParseKindView::Operator(o) => operator_text(o),
        ParseKindView::Literal(l) => match l {
            ValueLiteralView::Int(i) => int_decimal(i as int),
            ValueLiteralView::Float(s) => s,
            ValueLiteralView::Str(s) => seq!['"'] + s + seq!['"'],
        },
        ParseKindView::LParen => "("@,
        ParseKindView::RParen => ")"@,
        ParseKindView::LSquare => "["@,
        ParseKindView::RSquare => "]"@,
    }
}

/// `Doug`, `count` times over.
pub open spec fn doug_text(count: nat) -> Seq<char>
    decreases count,
{
    if count == 0 {
        Seq::empty()
    } else {
        doug_text((count - 1) as nat) + "Doug"@
    }
}

fn push_str(out: &mut Vec<char>, s: &str)
    ensures
        final(out)@ == old(out)@ + s@,
{
    let c = crate::text::str_chars(s);
    push_chars(out, c.as_slice());
}

/// The text `kind` is shown as in an error.
pub fn kind_string(kind: &ParseKind) -> (s: Vec<char>)
    ensures
        s@ == kind_text(kind@),
{
    let mut out: Vec<char> = Vec::new();
    match kind {
        ParseKind::Tts => push_str(&mut out, "tts"),
        ParseKind::Ttss => push_str(&mut out, "ttss"),
        ParseKind::Guod => push_str(&mut out, "guoD"),
        ParseKind::Rigged => push_str(&mut out, "Rigged"),
        ParseKind::Assign => push_str(&mut out, "set"),
        ParseKind::Loop => push_str(&mut out, "loop"),
        ParseKind::Prediction => push_str(&mut out, "prediction"),
        ParseKind::Believers => push_str(&mut out, "Believers"),
        ParseKind::Doubters => push_str(&mut out, "Doubters"),
        ParseKind::Win => push_str(&mut out, "win"),
        ParseKind::Bald => push_str(&mut out, "Bald"),
        ParseKind::Doug(c) => {
            let mut k: usize = 0;
            while k < *c
                invariant
                    k <= *c,
                    out@ == doug_text(k as nat),
                decreases *c - k,
            {
                push_str(&mut out, "Doug");
                k = k + 1;
            }
        },
        ParseKind::Operator(o) => push_str(&mut out, o.text()),
        ParseKind::Literal(l) => match l {
            ValueLiteral::Int(i) => push_i64_decimal(&mut out, *i),
            ValueLiteral::Float(s) => push_str(&mut out, s.as_str()),
            ValueLiteral::Str(s) => {
                out.push('"');
                push_str(&mut out, s.as_str());
                out.push('"');
                assert(out@ =~= seq!['"'] + s@ + seq!['"']);
            },
        },
        ParseKind::LParen => push_str(&mut out, "("),
        ParseKind::RParen => push_str(&mut out, ")"),
        ParseKind::LSquare => push_str(&mut out, "["),
        ParseKind::RSquare => push_str(&mut out, "]"),
    }
    out
}

} // verus!
