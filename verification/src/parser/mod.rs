//! The parser: from tokens to the statement tree.
pub mod ast;
mod error;
pub mod grammar;
pub mod helpers;
pub mod tokens;

pub use error::{syntax_error_text, SyntaxError, SyntaxErrorView};

use vstd::prelude::*;

use crate::lexer::{lex, lexed};
use crate::parser::ast::{
    references_view, stmts_view, DougChain, Expr, ExprView, Reference, ReferenceView, Stmt, StmtView,
};
use crate::parser::grammar::{
    block, block_loop, consume, doug_expr, doug_node, doug_tail, enter, eof_text, expected,
    line_end, next16, parse_expr, parse_program, peek, prediction_arms, set_chain, set_expr, step,
    stmt_step, tokens_to_expr, unexpected, wf, BlockStep, PState,
};
use crate::parser::tokens::{
    expand, expand_tokens, kind_string, parse_token_views, ParseKind, ParseKindView, ParseToken,
    ParseTokenView,
};
use crate::runtime::RuntimeError;
use crate::text::{str_chars, string_from_chars};
use crate::values::tape::{Mutator, MutatorView, TapeView};
use crate::values::Operator;

verus! {

/// The parser: the tokens of a program, the next one to read, the end of those
/// buffered from the current line, and the row and column counters its errors report.
pub struct Parser {
    tokens: Vec<ParseToken>,
    pos: usize,
    end: usize,
    row: u16,
    column: u16,
}

/// A counter moved on by one, wrapping past the largest `u16`.
fn next_u16(n: u16) -> (r: u16)
    ensures
        r == next16(n),
{
    if n == u16::MAX {
        0
    } else {
        n + 1
    }
}

/// The view of a parse result that gives an expression.
pub open spec fn expr_result(r: Result<Expr, SyntaxError>) -> Result<ExprView, SyntaxErrorView> {
    match r {
        Ok(e) => Ok(e@),
        Err(x) => Err(x@),
    }
}

/// The view of a parse result that gives statements.
pub open spec fn stmts_result(r: Result<Vec<Stmt>, SyntaxError>) -> Result<Seq<StmtView>, SyntaxErrorView> {
    match r {
        Ok(v) => Ok(stmts_view(v@)),
        Err(x) => Err(x@),
    }
}

/// The view of a parse result that gives an assignment's value and operator.
pub open spec fn set_result(r: Result<(Expr, Option<Operator>), SyntaxError>) -> Result<(ExprView, Option<Operator>), SyntaxErrorView> {
    match r {
        Ok(p) => Ok((p.0@, p.1)),
        Err(x) => Err(x@),
    }
}

/// Appends `s` to `nodes`.
fn push_stmt(nodes: &mut Vec<Stmt>, s: Stmt)
    ensures
        stmts_view(final(nodes)@) == stmts_view(old(nodes)@).push(s@),
{
    let ghost before = stmts_view(nodes@);
    let ghost sv = s@;
    nodes.push(s);
    assert(stmts_view(nodes@) =~= before.push(sv));
}

/// The view of a parse result that gives the arms of a prediction.
pub open spec fn arms_result(r: Result<(Vec<Stmt>, Vec<Stmt>), SyntaxError>) -> Result<(Seq<StmtView>, Seq<StmtView>), SyntaxErrorView> {
    match r {
        Ok(p) => Ok((stmts_view(p.0@), stmts_view(p.1@))),
        Err(x) => Err(x@),
    }
}

/// What the token that starts a statement is.
enum Head {
    Tts(bool),
    Guod,
    Rigged,
    Assign,
    Operator(Operator),
    Loop,
    Prediction,
    Doug,
    Open,
    Close,
    Other,
}

/// An empty sequence of statements.
fn no_stmts() -> (v: Vec<Stmt>)
    ensures
        stmts_view(v@) == Seq::<StmtView>::empty(),
{
    let v: Vec<Stmt> = Vec::new();
    assert(stmts_view(v@) =~= Seq::<StmtView>::empty());
    v
}

/// What the token that leads an operand is.
enum Lead {
    Open,
    Literal,
    Doug,
    Close,
    Other,
}

fn chars_string(s: &str) -> (r: String)
    ensures
        r@ == s@,
{
    let c = str_chars(s);
    string_from_chars(c.as_slice())
}

impl Parser {
    /// The tokens the parser reads.
    pub closed spec fn toks(&self) -> Seq<ParseTokenView> {
        parse_token_views(self.tokens@)
    }

    /// Where the parser stands.
    pub closed spec fn state(&self) -> PState {
        PState { pos: self.pos as int, end: self.end as int, row: self.row, col: self.column }
    }

    /// Whether the parser's position lies within its tokens.
    pub closed spec fn inv(&self) -> bool {
        wf(self.toks(), self.state())
    }

    /// How many tokens are left to read.
    pub closed spec fn remaining(&self) -> int {
        self.tokens@.len() - self.pos
    }

    /// Whether this parser reads the tokens `old` reads, from no earlier a position.
    pub closed spec fn moved_on(&self, old: &Parser) -> bool {
        &&& self.tokens == old.tokens
        &&& self.inv()
        &&& self.pos >= old.pos
    }

    pub fn new() -> (p: Self)
        ensures
            p.toks() == Seq::<ParseTokenView>::empty(),
            p.state() == (PState { pos: 0, end: 0, row: 0, col: 0 }),
            p.inv(),
    {
        let p = Parser { tokens: Vec::new(), pos: 0, end: 0, row: 0, column: 0 };
        assert(p.toks() =~= Seq::<ParseTokenView>::empty());
        p
    }

    fn line_end_at(&self, i: usize) -> (r: usize)
        requires
            i < self.tokens@.len(),
        ensures
            r == line_end(self.toks(), i as int),
            i < r <= self.tokens@.len(),
    {
        let n = self.tokens.len();
        let mut j = i;
        while j + 1 < n && self.tokens[j + 1].line == self.tokens[j].line
            invariant
                i <= j < n,
                n == self.tokens@.len(),
                line_end(self.toks(), j as int) == line_end(self.toks(), i as int),
            decreases n - j,
        {
            j = j + 1;
        }
        j + 1
    }

    /// The error for finding token `i` where `what` was expected.
    fn expected_err(&self, what: &str, i: usize) -> (e: SyntaxError)
        requires
            i < self.tokens@.len(),
        ensures
            e@ == expected(what@, self.toks()[i as int], self.state()),
    {
        let got = kind_string(&self.tokens[i].kind);
        SyntaxError::Expected(
            chars_string(what),
            string_from_chars(got.as_slice()),
            self.row,
            self.column,
        )
    }

    /// The error for token `i` standing where it cannot.
    fn unexpected_err(&self, i: usize) -> (e: SyntaxError)
        requires
            i < self.tokens@.len(),
        ensures
            e@ == unexpected(self.toks()[i as int], self.state()),
    {
        let got = kind_string(&self.tokens[i].kind);
        SyntaxError::Unexpected(string_from_chars(got.as_slice()), self.row, self.column)
    }

    /// Reads the buffered token at the position.
    fn advance(&mut self)
        requires
            old(self).inv(),
            old(self).pos < old(self).end,
        ensures
            final(self).tokens == old(self).tokens,
            final(self).state() == step(old(self).state()),
            final(self).inv(),
    {
        self.pos = self.pos + 1;
        self.column = next_u16(self.column);
    }

    /// Reads the next token and gives its index, taking the next line into the buffer
    /// where the buffer is empty.
    fn consume(&mut self) -> (r: Result<usize, SyntaxError>)
        requires
            old(self).inv(),
        ensures
            final(self).moved_on(old(self)),
            final(self).state() == consume(old(self).toks(), old(self).state()).1,
            match r {
                Ok(i) => {
                    &&& i == old(self).pos
                    &&& i < old(self).tokens@.len()
                    &&& consume(old(self).toks(), old(self).state()).0 == Ok::<ParseTokenView, SyntaxErrorView>(old(self).toks()[i as int])
                },
                Err(e) => consume(old(self).toks(), old(self).state()).0 == Err::<ParseTokenView, SyntaxErrorView>(e@),
            },
    {
        if self.pos < self.end {
            let i = self.pos;
            self.advance();
            Ok(i)
        } else if self.pos < self.tokens.len() {
            let i = self.pos;
            self.end = self.line_end_at(i);
            self.pos = self.pos + 1;
            self.row = next_u16(self.row);
            self.column = 0;
            Ok(i)
        } else {
            self.row = next_u16(self.row);
            self.column = 0;
            Err(SyntaxError::Lexer(chars_string("EOFReached"), self.row, 0))
        }
    }

    /// The index of the next buffered token, if the buffer holds one.
    fn peek(&self) -> (r: Option<usize>)
        requires
            self.inv(),
        ensures
            match r {
                Some(i) => i == self.pos && i < self.end && peek(self.toks(), self.state()) == Some(self.toks()[i as int]),
                None => peek(self.toks(), self.state()) is None,
            },
    {
        if self.pos < self.end {
            Some(self.pos)
        } else {
            None
        }
    }

    /// Whether the token after the next is a buffered `set`.
    fn set_follows(&self) -> (r: bool)
        requires
            self.inv(),
        ensures
            r == crate::parser::grammar::set_follows(self.toks(), self.state()),
    {
        if self.end > 0 && self.pos < self.end - 1 {
            match &self.tokens[self.pos + 1].kind {
                ParseKind::Assign => true,
                _ => false,
            }
        } else {
            false
        }
    }

    /// The Doug chains of a reference, after those in `acc`.
    fn parse_doug_expr(&mut self, start: Vec<Reference>) -> (r: Result<Vec<Reference>, SyntaxError>)
        requires
            old(self).inv(),
        ensures
            final(self).moved_on(old(self)),
            (match r {
                Ok(v) => Ok::<Seq<ReferenceView>, SyntaxErrorView>(references_view(v@)),
                Err(e) => Err(e@),
            }, final(self).state()) == doug_expr(old(self).toks(), old(self).state(), references_view(start@)),
    {
        let ghost acc0 = references_view(start@);
        let mut acc = start;
        loop
            invariant
                acc0 == references_view(start@),
                self.moved_on(old(self)),
                doug_expr(self.toks(), self.state(), references_view(acc@))
                    == doug_expr(old(self).toks(), old(self).state(), acc0),
            decreases self.tokens@.len() - self.pos,
        {
            match self.peek() {
                None => {
                    return Ok(acc);
                },
                Some(i) => {
                    let count: Option<usize> = match &self.tokens[i].kind {
                        ParseKind::Doug(c) => Some(*c),
                        ParseKind::RParen => None,
                        _ => {
                            return Err(self.expected_err("Doug, Closing Brace", i));
                        },
                    };
                    match count {
                        None => {
                            return Ok(acc);
                        },
                        Some(c) => {
                            let ghost before = references_view(acc@);
                            self.advance();
                            acc.push(Reference::Doug(DougChain { count: c }));
                            assert(references_view(acc@) =~= before.push(ReferenceView::Doug(DougChain { count: c })));
                        },
                    }
                },
            }
        }
    }

    /// What token `i`, which leads an operand, is.
    fn lead(&self, i: usize) -> (r: Lead)
        requires
            i < self.tokens@.len(),
        ensures
            r is Open <==> self.toks()[i as int].kind is LParen,
            r is Literal <==> self.toks()[i as int].kind is Literal,
            r is Doug <==> (self.toks()[i as int].kind is Doug || self.toks()[i as int].kind is Bald),
            r is Close <==> self.toks()[i as int].kind is RParen,
    {
        match &self.tokens[i].kind {
            ParseKind::LParen => Lead::Open,
            ParseKind::Literal(_) => Lead::Literal,
            ParseKind::Doug(_) | ParseKind::Bald => Lead::Doug,
            ParseKind::RParen => Lead::Close,
            _ => Lead::Other,
        }
    }

    /// One operand of an expression.
    fn tokens_to_expr(&mut self) -> (r: Result<Expr, SyntaxError>)
        requires
            old(self).inv(),
        ensures
            final(self).moved_on(old(self)),
            (expr_result(r), final(self).state()) == tokens_to_expr(old(self).toks(), old(self).state()),
        decreases old(self).tokens@.len() - old(self).pos, 0int,
    {
        let i = match self.peek() {
            None => {
                return Err(SyntaxError::BreakFromExprTree);
            },
            Some(i) => i,
        };
        match self.lead(i) {
            Lead::Open => {
                self.advance();
                let inner = self.parse_expr();
                match inner {
                    Err(e) => Err(e),
                    Ok(e) => match self.consume() {
                        Err(x) => Err(x),
                        Ok(j) => {
                            let closes = match &self.tokens[j].kind {
                                ParseKind::RParen => true,
                                _ => false,
                            };
                            if closes {
                                Ok(e)
                            } else {
                                Err(self.expected_err(")", j))
                            }
                        },
                    },
                }
            },
            Lead::Literal => {
                let lit = match &self.tokens[i].kind {
                    ParseKind::Literal(l) => l.duplicate(),
                    _ => {
                        assert(false);
                        return Err(SyntaxError::BreakFromExprTree);
                    },
                };
                self.advance();
                Ok(Expr::Literal(lit))
            },
            Lead::Doug => {
                let empty: Vec<Reference> = Vec::new();
                proof {
                    assert(references_view(empty@) =~= Seq::<ReferenceView>::empty());
                }
                let d = self.parse_doug_expr(empty);
                match d {
                    Ok(chains) => Ok(Expr::DougSequence { chains }),
                    Err(e) => Err(e),
                }
            },
            Lead::Close => Err(SyntaxError::BreakFromExprTree),
            Lead::Other => Err(self.expected_err("expression", i)),
        }
    }

    /// An expression: an operand, and where an operator that no `set` follows comes
    /// next, that operator and a second operand where one can be read.
    fn parse_expr(&mut self) -> (r: Result<Expr, SyntaxError>)
        requires
            old(self).inv(),
        ensures
            final(self).moved_on(old(self)),
            (expr_result(r), final(self).state()) == parse_expr(old(self).toks(), old(self).state()),
        decreases old(self).tokens@.len() - old(self).pos, 1int,
    {
        let left = match self.tokens_to_expr() {
            Err(e) => {
                return Err(e);
            },
            Ok(l) => l,
        };
        let op: Option<Operator> = match self.peek() {
            None => None,
            Some(i) => match &self.tokens[i].kind {
                ParseKind::Operator(op) => if self.set_follows() {
                    None
                } else {
                    Some(*op)
                },
                _ => None,
            },
        };
        match op {
            None => Ok(left),
            Some(op) => {
                self.advance();
                let right = match self.tokens_to_expr() {
                    Ok(x) => Some(Box::new(x)),
                    Err(_) => None,
                };
                Ok(Expr::Condition { left: Box::new(left), operator: Some(op), right })
            },
        }
    }
}

impl Parser {
    /// An assignment: `set` and an expression, or an operator, `set` and an expression.
    fn parse_set_expr(&mut self) -> (r: Result<(Expr, Option<Operator>), SyntaxError>)
        requires
            old(self).inv(),
        ensures
            final(self).moved_on(old(self)),
            (set_result(r), final(self).state()) == set_expr(old(self).toks(), old(self).state()),
            r is Ok ==> final(self).pos > old(self).pos,
    {
        let i = match self.consume() {
            Err(e) => {
                return Err(e);
            },
            Ok(i) => i,
        };
        let op: Option<Operator> = match &self.tokens[i].kind {
            ParseKind::Assign => None,
            ParseKind::Operator(op) => Some(*op),
            _ => {
                return Err(self.expected_err("set, operator", i));
            },
        };
        match op {
            None => match self.parse_expr() {
                Ok(v) => Ok((v, None)),
                Err(e) => Err(e),
            },
            Some(op) => {
                let j = match self.consume() {
                    Err(e) => {
                        return Err(e);
                    },
                    Ok(j) => j,
                };
                let is_set = match &self.tokens[j].kind {
                    ParseKind::Assign => true,
                    _ => false,
                };
                if !is_set {
                    return Err(self.expected_err("set", j));
                }
                match self.parse_expr() {
                    Ok(v) => Ok((v, Some(op))),
                    Err(e) => Err(e),
                }
            },
        }
    }

    /// The cell reference that the token `i`, just read, starts.
    fn parse_doug_node(&mut self, i: usize) -> (r: Result<Stmt, SyntaxError>)
        requires
            old(self).inv(),
            i < old(self).tokens@.len(),
        ensures
            final(self).moved_on(old(self)),
            (match r {
                Ok(s) => Ok::<StmtView, SyntaxErrorView>(s@),
                Err(e) => Err(e@),
            }, final(self).state()) == doug_node(old(self).toks(), old(self).state(), old(self).toks()[i as int]),
    {
        let (mut chains, reset) = match &self.tokens[i].kind {
            ParseKind::Bald => (Vec::new(), true),
            ParseKind::Doug(c) => {
                let mut v: Vec<Reference> = Vec::new();
                v.push(Reference::Doug(DougChain { count: *c }));
                (v, false)
            },
            _ => {
                return Err(self.expected_err("Bald, Doug, variable name", i));
            },
        };
        let ghost first = references_view(chains@);
        proof {
            match self.toks()[i as int].kind {
                ParseKindView::Doug(c) => {
                    assert(first =~= seq![ReferenceView::Doug(DougChain { count: c })]);
                },
                _ => {
                    assert(first =~= Seq::<ReferenceView>::empty());
                },
            }
        }
        loop
            invariant
                i < old(self).tokens@.len(),
                reset == (old(self).toks()[i as int].kind is Bald),
                old(self).toks()[i as int].kind is Bald || old(self).toks()[i as int].kind is Doug,
                first == match old(self).toks()[i as int].kind {
                    ParseKindView::Doug(c) => seq![ReferenceView::Doug(DougChain { count: c })],
                    _ => Seq::<ReferenceView>::empty(),
                },
                self.moved_on(old(self)),
                doug_tail(self.toks(), self.state(), references_view(chains@))
                    == doug_tail(old(self).toks(), old(self).state(), first),
            ensures
                self.moved_on(old(self)),
                doug_tail(old(self).toks(), old(self).state(), first) == (references_view(chains@), self.state()),
            decreases self.tokens@.len() - self.pos,
        {
            let count: Option<usize> = match self.peek() {
                None => None,
                Some(j) => match &self.tokens[j].kind {
                    ParseKind::Doug(c) => Some(*c),
                    _ => None,
                },
            };
            match count {
                None => {
                    break;
                },
                Some(c) => {
                    let ghost before = references_view(chains@);
                    self.advance();
                    chains.push(Reference::Doug(DougChain { count: c }));
                    assert(references_view(chains@) =~= before.push(ReferenceView::Doug(DougChain { count: c })));
                },
            }
        }
        Ok(Stmt::Doug { chains, reset })
    }

    /// The assignments that follow a cell reference, each appended to `nodes`.
    fn parse_set_chain(&mut self, nodes: &mut Vec<Stmt>) -> (r: Result<(), SyntaxError>)
        requires
            old(self).inv(),
        ensures
            final(self).moved_on(old(self)),
            final(self).state() == set_chain(old(self).toks(), old(self).state(), stmts_view(old(nodes)@)).1,
            set_chain(old(self).toks(), old(self).state(), stmts_view(old(nodes)@)).0 == match r {
                Ok(()) => Ok::<Seq<StmtView>, SyntaxErrorView>(stmts_view(final(nodes)@)),
                Err(e) => Err(e@),
            },
    {
        let ghost acc0 = stmts_view(nodes@);
        loop
            invariant
                acc0 == stmts_view(old(nodes)@),
                self.moved_on(old(self)),
                set_chain(self.toks(), self.state(), stmts_view(nodes@))
                    == set_chain(old(self).toks(), old(self).state(), acc0),
            decreases self.tokens@.len() - self.pos,
        {
            let more = match self.peek() {
                None => false,
                Some(j) => match &self.tokens[j].kind {
                    ParseKind::Assign | ParseKind::Operator(_) => true,
                    _ => false,
                },
            };
            if !more {
                return Ok(());
            }
            match self.parse_set_expr() {
                Err(e) => {
                    return Err(e);
                },
                Ok((value, oper)) => {
                    push_stmt(nodes, Stmt::Assign { value, oper });
                },
            }
        }
    }
}

impl Parser {
    /// What the token `i` that starts a statement is.
    fn head(&self, i: usize) -> (h: Head)
        requires
            i < self.tokens@.len(),
        ensures
            match self.toks()[i as int].kind {
                ParseKindView::Tts => h == Head::Tts(false),
                ParseKindView::Ttss => h == Head::Tts(true),
                ParseKindView::Guod => h is Guod,
                ParseKindView::Rigged => h is Rigged,
                ParseKindView::Assign => h is Assign,
                ParseKindView::Operator(op) => h == Head::Operator(op),
                ParseKindView::Loop => h is Loop,
                ParseKindView::Prediction => h is Prediction,
                ParseKindView::Bald | ParseKindView::Doug(_) => h is Doug,
                ParseKindView::LParen => h is Open,
                ParseKindView::RSquare => h is Close,
                _ => h is Other,
            },
    {
        match &self.tokens[i].kind {
            ParseKind::Tts => Head::Tts(false),
            ParseKind::Ttss => Head::Tts(true),
            ParseKind::Guod => Head::Guod,
            ParseKind::Rigged => Head::Rigged,
            ParseKind::Assign => Head::Assign,
            ParseKind::Operator(op) => Head::Operator(*op),
            ParseKind::Loop => Head::Loop,
            ParseKind::Prediction => Head::Prediction,
            ParseKind::Bald | ParseKind::Doug(_) => Head::Doug,
            ParseKind::LParen => Head::Open,
            ParseKind::RSquare => Head::Close,
            _ => Head::Other,
        }
    }

    /// Whether token `j` is `what` is asked of it; `k` names the kind asked for.
    fn is_kind(&self, j: usize, k: u8) -> (r: bool)
        requires
            j < self.tokens@.len(),
            k < 4,
        ensures
            k == 0 ==> (r <==> self.toks()[j as int].kind is LSquare),
            k == 1 ==> (r <==> self.toks()[j as int].kind is RParen),
            k == 2 ==> (r <==> self.toks()[j as int].kind is Win),
            k == 3 ==> (r <==> self.toks()[j as int].kind is Assign),
    {
        match &self.tokens[j].kind {
            ParseKind::LSquare => k == 0,
            ParseKind::RParen => k == 1,
            ParseKind::Win => k == 2,
            ParseKind::Assign => k == 3,
            _ => false,
        }
    }

    /// Reads one statement and appends what it gives to `nodes`: `None` lets the block
    /// go on, `Some` ends it, with its statements or an error.
    fn parse_statement(&mut self, is_top: bool, nodes: &mut Vec<Stmt>) -> (r: Option<Result<(), SyntaxError>>)
        requires
            old(self).inv(),
        ensures
            final(self).moved_on(old(self)),
            r is None ==> final(self).pos > old(self).pos,
            match stmt_step(old(self).toks(), old(self).state(), is_top, stmts_view(old(nodes)@)) {
                BlockStep::Done(res, s) => {
                    &&& final(self).state() == s
                    &&& r is Some
                    &&& res == match r->0 {
                        Ok(()) => Ok::<Seq<StmtView>, SyntaxErrorView>(stmts_view(final(nodes)@)),
                        Err(e) => Err(e@),
                    }
                },
                BlockStep::Next(acc2, s) => {
                    &&& final(self).state() == s
                    &&& r is None
                    &&& stmts_view(final(nodes)@) == acc2
                },
            },
        decreases old(self).tokens@.len() - old(self).pos, 0int,
    {
        let i = match self.consume() {
            Err(_) => {
                if is_top {
                    return Some(Ok(()));
                } else {
                    let nothing: Vec<char> = Vec::new();
                    return Some(Err(SyntaxError::Expected(
                        chars_string("]"),
                        string_from_chars(nothing.as_slice()),
                        self.row,
                        self.column,
                    )));
                }
            },
            Ok(i) => i,
        };
        match self.head(i) {
            Head::Tts(overlap) => {
                let stmt = match self.parse_expr() {
                    Ok(m) => Stmt::Tts { msg: Some(m), use_index: false, overlap },
                    Err(_) => Stmt::Tts { msg: None, use_index: true, overlap },
                };
                push_stmt(nodes, stmt);
                None
            },
            Head::Guod => {
                let stmt = match self.parse_expr() {
                    Ok(v) => Stmt::Guod { value: Some(v), use_index: false },
                    Err(_) => Stmt::Guod { value: None, use_index: true },
                };
                push_stmt(nodes, stmt);
                None
            },
            Head::Rigged => {
                let _ = self.consume();
                None
            },
            Head::Assign => match self.parse_expr() {
                Ok(v) => {
                    push_stmt(nodes, Stmt::Assign { value: v, oper: None });
                    None
                },
                Err(e) => Some(Err(e)),
            },
            Head::Operator(op) => match self.parse_set_expr() {
                Ok((v, _)) => {
                    push_stmt(nodes, Stmt::Assign { value: v, oper: Some(op) });
                    None
                },
                Err(e) => Some(Err(e)),
            },
            Head::Loop => {
                let j = match self.consume() {
                    Err(e) => {
                        return Some(Err(e));
                    },
                    Ok(j) => j,
                };
                if !self.is_kind(j, 0) {
                    return Some(Err(self.expected_err("[", j)));
                }
                match self.parse_block(false) {
                    Ok(body) => {
                        push_stmt(nodes, Stmt::Loop { body });
                        None
                    },
                    Err(e) => Some(Err(e)),
                }
            },
            Head::Prediction => {
                let condition = match self.parse_expr() {
                    Err(e) => {
                        return Some(Err(e));
                    },
                    Ok(c) => c,
                };
                let j = match self.consume() {
                    Err(e) => {
                        return Some(Err(e));
                    },
                    Ok(j) => j,
                };
                if !self.is_kind(j, 0) {
                    return Some(Err(self.expected_err("[", j)));
                }
                match self.parse_prediction_arms() {
                    Ok((believe_body, doubt_body)) => {
                        push_stmt(nodes, Stmt::Prediction { believe_body, doubt_body, condition });
                        None
                    },
                    Err(e) => Some(Err(e)),
                }
            },
            Head::Doug => {
                match self.parse_doug_node(i) {
                    Err(e) => {
                        return Some(Err(e));
                    },
                    Ok(node) => push_stmt(nodes, node),
                }
                match self.parse_set_chain(nodes) {
                    Ok(()) => None,
                    Err(e) => Some(Err(e)),
                }
            },
            Head::Open => {
                let empty: Vec<Reference> = Vec::new();
                proof {
                    assert(references_view(empty@) =~= Seq::<ReferenceView>::empty());
                }
                let chains = match self.parse_doug_expr(empty) {
                    Err(e) => {
                        return Some(Err(e));
                    },
                    Ok(c) => c,
                };
                let j = match self.consume() {
                    Err(e) => {
                        return Some(Err(e));
                    },
                    Ok(j) => j,
                };
                if !self.is_kind(j, 1) {
                    return Some(Err(self.expected_err(")", j)));
                }
                push_stmt(nodes, Stmt::Doug { chains, reset: true });
                None
            },
            Head::Close => {
                if is_top {
                    Some(Err(SyntaxError::Unexpected(chars_string("] in top level"), self.row, self.column)))
                } else {
                    Some(Ok(()))
                }
            },
            Head::Other => Some(Err(self.unexpected_err(i))),
        }
    }

    /// The statements of a block: a nested block ends at its `]`, the top-level block
    /// at the end of the tokens.
    pub fn parse_block(&mut self, is_top: bool) -> (r: Result<Vec<Stmt>, SyntaxError>)
        requires
            old(self).inv(),
        ensures
            final(self).moved_on(old(self)),
            (stmts_result(r), final(self).state()) == block(old(self).toks(), old(self).state(), is_top),
        decreases old(self).remaining(), 1int,
    {
        self.row = next_u16(self.row);
        self.column = 0;
        let mut nodes = no_stmts();
        loop
            invariant
                self.moved_on(old(self)),
                block_loop(self.toks(), self.state(), is_top, stmts_view(nodes@))
                    == block_loop(old(self).toks(), enter(old(self).state()), is_top, Seq::empty()),
            decreases self.tokens@.len() - self.pos,
        {
            match self.parse_statement(is_top, &mut nodes) {
                Some(Ok(())) => {
                    return Ok(nodes);
                },
                Some(Err(e)) => {
                    return Err(e);
                },
                None => {},
            }
        }
    }

    /// The arms of a prediction, up to its closing `]`.
    fn parse_prediction_arms(&mut self) -> (r: Result<(Vec<Stmt>, Vec<Stmt>), SyntaxError>)
        requires
            old(self).inv(),
        ensures
            final(self).moved_on(old(self)),
            (arms_result(r), final(self).state()) == prediction_arms(
                old(self).toks(),
                old(self).state(),
                Seq::empty(),
                Seq::empty(),
            ),
        decreases old(self).tokens@.len() - old(self).pos, 1int,
    {
        let mut believers = no_stmts();
        let mut doubters = no_stmts();
        loop
            invariant
                self.moved_on(old(self)),
                prediction_arms(self.toks(), self.state(), stmts_view(believers@), stmts_view(doubters@))
                    == prediction_arms(old(self).toks(), old(self).state(), Seq::empty(), Seq::empty()),
            decreases self.tokens@.len() - self.pos,
        {
            let i = match self.consume() {
                Err(e) => {
                    return Err(e);
                },
                Ok(i) => i,
            };
            let side: Option<bool> = match &self.tokens[i].kind {
                ParseKind::Believers => Some(true),
                ParseKind::Doubters => Some(false),
                ParseKind::RSquare => None,
                _ => {
                    return Err(self.expected_err("believers, doubters, ]", i));
                },
            };
            match side {
                None => {
                    return Ok((believers, doubters));
                },
                Some(is_believers) => {
                    let w = match self.consume() {
                        Err(e) => {
                            return Err(e);
                        },
                        Ok(w) => w,
                    };
                    if !self.is_kind(w, 2) {
                        return Err(self.expected_err("win", w));
                    }
                    let o = match self.consume() {
                        Err(e) => {
                            return Err(e);
                        },
                        Ok(o) => o,
                    };
                    if !self.is_kind(o, 0) {
                        return Err(self.expected_err("[", o));
                    }
                    let body = match self.parse_block(false) {
                        Err(e) => {
                            return Err(e);
                        },
                        Ok(b) => b,
                    };
                    if is_believers {
                        believers = body;
                    } else {
                        doubters = body;
                    }
                },
            }
        }
    }
}

/// The program a source text makes, read by a parser whose counters stand at `row` and
/// `col`: its statements, or the error that stops it; a source that does not lex gives
/// the lexer's message.
pub open spec fn parse_source_from(source: Seq<char>, row: u16, col: u16) -> Result<Seq<StmtView>, SyntaxErrorView> {
    match lexed(source) {
        Err(m) => Err(SyntaxErrorView::Lexer(m, 0, 0)),
        Ok(tv) => parse_program(expand(tv), row, col),
    }
}

/// The program a source text makes, read by a fresh parser.
pub open spec fn parse_source(source: Seq<char>) -> Result<Seq<StmtView>, SyntaxErrorView> {
    parse_source_from(source, 0, 0)
}

impl Parser {
    /// Takes the tokens of `source` to parse, from its start; where `source` does not
    /// lex, the parser is left as it was.
    pub fn set_source(&mut self, source: &str) -> (r: Result<(), SyntaxError>)
        ensures
            match lexed(source@) {
                Err(m) => r matches Err(e) && e@ == SyntaxErrorView::Lexer(m, 0, 0) && *final(self) == *old(self),
                Ok(tv) => {
                    &&& r is Ok
                    &&& final(self).toks() == expand(tv)
                    &&& final(self).state() == (PState { pos: 0, end: 0, row: old(self).state().row, col: old(self).state().col })
                    &&& final(self).inv()
                },
            },
    {
        match lex(source) {
            Err(e) => Err(SyntaxError::Lexer(e.message, 0, 0)),
            Ok(tokens) => {
                self.tokens = expand_tokens(tokens.as_slice());
                self.pos = 0;
                self.end = 0;
                Ok(())
            },
        }
    }

    /// Parses the rest of the tokens as the top-level block of a program.
    pub fn parse(&mut self) -> (r: Result<Vec<Stmt>, SyntaxError>)
        requires
            old(self).inv(),
        ensures
            final(self).inv(),
            final(self).toks() == old(self).toks(),
            (stmts_result(r), final(self).state()) == block(old(self).toks(), old(self).state(), true),
    {
        self.parse_block(true)
    }
}

impl Mutator for Parser {
    type Input = String;
    type Output = Vec<Stmt>;

    /// A parse leaves the memory as it was and gives the statements of the program, or
    /// the text of the syntax error that stops it, its position counted on from where
    /// this parser's counters stand.
    open spec fn run_gives(
        &self,
        before: TapeView,
        input: String,
        r: Result<Vec<Stmt>, RuntimeError>,
        after: TapeView,
    ) -> bool {
        &&& after == before
        &&& match parse_source_from(input@, self.state().row, self.state().col) {
            Ok(stmts) => r matches Ok(v) && stmts_view(v@) == stmts,
            Err(e) => r matches Err(RuntimeError::SyntaxError(m)) && m@ == syntax_error_text(e),
        }
    }

    /// Parses the program `input`: its statements, or the error that stops it, as the
    /// text of a syntax error.
    fn run(&mut self, mem: &mut MutatorView, input: String) -> (r: Result<Vec<Stmt>, RuntimeError>)
        ensures
            match parse_source_from(input@, old(self).state().row, old(self).state().col) {
                Ok(stmts) => r matches Ok(v) && stmts_view(v@) == stmts,
                Err(e) => r matches Err(RuntimeError::SyntaxError(m)) && m@ == syntax_error_text(e),
            },
    {
        match self.set_source(input.as_str()) {
            Err(e) => {
                return Err(RuntimeError::SyntaxError(e.message()));
            },
            Ok(()) => {},
        }
        match self.parse() {
            Ok(v) => Ok(v),
            Err(e) => Err(RuntimeError::SyntaxError(e.message())),
        }
    }
}

} // verus!
