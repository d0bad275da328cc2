//! What parsing a sequence of parser tokens gives, as spec functions.
//!
//! The parser reads its tokens one source line at a time: a line's tokens are taken
//! into a buffer when the buffer is empty and another token is wanted, and looking
//! ahead (`peek`) sees only what the buffer holds. So an expression ends at the end of
//! its line, and `tts` at the end of a line speaks the cell under the cursor.
use vstd::prelude::*;

use crate::parser::ast::{DougChain, ExprView, ReferenceView, StmtView};
use crate::parser::error::SyntaxErrorView;
use crate::parser::tokens::{kind_text, ParseKindView, ParseTokenView};
use crate::values::Operator;

verus! {

/// Where a parser stands: the next token to read, the end of the tokens buffered from
/// the current line, and the row and column counters its errors report. Reading a
/// token moves the column on by one; taking a new line into the buffer moves the row on
/// and puts the column back to zero, and so does starting a block.
pub struct PState {
    pub pos: int,
    pub end: int,
    pub row: u16,
    pub col: u16,
}

/// Whether `st` is a state of a parser over `ts`.
pub open spec fn wf(ts: Seq<ParseTokenView>, st: PState) -> bool {
    0 <= st.pos <= st.end <= ts.len()
}

/// A counter moved on by one, wrapping past the largest `u16`.
pub open spec fn next16(n: u16) -> u16 {
    if n == 0xffff {
        0
    } else {
        (n + 1) as u16
    }
}

/// The text of the lexing error for reading past the last line.
pub open spec fn eof_text() -> Seq<char> {
    "EOFReached"@
}

/// The error for finding `t` where `what` was expected, at the counters of `st`.
pub open spec fn expected(what: Seq<char>, t: ParseTokenView, st: PState) -> SyntaxErrorView {
    SyntaxErrorView::Expected(what, kind_text(t.kind), st.row, st.col)
}

/// The error for a token that cannot stand where `t` stands, at the counters of `st`.
pub open spec fn unexpected(t: ParseTokenView, st: PState) -> SyntaxErrorView {
    SyntaxErrorView::Unexpected(kind_text(t.kind), st.row, st.col)
}

/// The end of the run of tokens from `i` on that share the line of token `i`.
pub open spec fn line_end(ts: Seq<ParseTokenView>, i: int) -> int
    decreases ts.len() - i,
{
    if 0 <= i && i + 1 < ts.len() && ts[i + 1].line == ts[i].line {
        line_end(ts, i + 1)
    } else {
        i + 1
    }
}

/// `st` with the buffered token at its position read.
pub open spec fn step(st: PState) -> PState {
    PState { pos: st.pos + 1, end: st.end, row: st.row, col: next16(st.col) }
}

/// `st` at the start of a block: the row moved on, the column back to zero.
pub open spec fn enter(st: PState) -> PState {
    PState { pos: st.pos, end: st.end, row: next16(st.row), col: 0 }
}

/// Reads the next token, taking the next line into the buffer where the buffer is empty;
/// past the last line there is none to take, and reading fails with a lexing error.
pub open spec fn consume(ts: Seq<ParseTokenView>, st: PState) -> (Result<ParseTokenView, SyntaxErrorView>, PState) {
    if st.pos < st.end {
        (Ok(ts[st.pos]), step(st))
    } else if 0 <= st.pos < ts.len() {
        (Ok(ts[st.pos]), PState { pos: st.pos + 1, end: line_end(ts, st.pos), row: next16(st.row), col: 0 })
    } else {
        (Err(SyntaxErrorView::Lexer(eof_text(), next16(st.row), 0)), enter(st))
    }
}

/// The next buffered token, if the buffer holds one.
pub open spec fn peek(ts: Seq<ParseTokenView>, st: PState) -> Option<ParseTokenView> {
    if 0 <= st.pos < st.end && st.end <= ts.len() {
        Some(ts[st.pos])
    } else {
        None
    }
}

/// The buffered token after the next, if the buffer holds one.
pub open spec fn peek_two(ts: Seq<ParseTokenView>, st: PState) -> Option<ParseTokenView> {
    if 0 <= st.pos && st.pos + 1 < st.end && st.end <= ts.len() {
        Some(ts[st.pos + 1])
    } else {
        None
    }
}

/// Whether the token after the next is a `set`.
pub open spec fn set_follows(ts: Seq<ParseTokenView>, st: PState) -> bool {
    match peek_two(ts, st) {
        Some(t) => t.kind is Assign,
        None => false,
    }
}

/// Whether `s` lies past `st` and within `ts`.
pub open spec fn advanced(ts: Seq<ParseTokenView>, st: PState, s: PState) -> bool {
    st.pos < s.pos <= ts.len()
}

/// The Doug chains of a reference from `st` on, after those in `acc`: it ends before a
/// `)` or at the end of the line; anything else is an error.
pub open spec fn doug_expr(ts: Seq<ParseTokenView>, st: PState, acc: Seq<ReferenceView>) -> (Result<Seq<ReferenceView>, SyntaxErrorView>, PState)
    decreases ts.len() - st.pos,
{
    if !wf(ts, st) {
        (Ok(acc), st)
    } else {
        match peek(ts, st) {
            None => (Ok(acc), st),
            Some(t) => match t.kind {
                ParseKindView::Doug(c) => doug_expr(ts, step(st), acc.push(ReferenceView::Doug(DougChain { count: c }))),
                ParseKindView::RParen => (Ok(acc), st),
                _ => (Err(expected("Doug, Closing Brace"@, t, st)), st),
            },
        }
    }
}

/// One operand of an expression.
pub open spec fn tokens_to_expr(ts: Seq<ParseTokenView>, st: PState) -> (Result<ExprView, SyntaxErrorView>, PState)
    decreases ts.len() - st.pos, 0int,
{
    if !wf(ts, st) {
        (Err(SyntaxErrorView::BreakFromExprTree), st)
    } else {
        match peek(ts, st) {
            None => (Err(SyntaxErrorView::BreakFromExprTree), st),
            Some(t) => match t.kind {
                ParseKindView::LParen => {
                    let inner = parse_expr(ts, step(st));
                    match inner.0 {
                        Err(e) => (Err(e), inner.1),
                        Ok(e) => {
                            let close = consume(ts, inner.1);
                            match close.0 {
                                Err(x) => (Err(x), close.1),
                                Ok(c) => if c.kind is RParen {
                                    (Ok(e), close.1)
                                } else {
                                    (Err(expected(")"@, c, close.1)), close.1)
                                },
                            }
                        },
                    }
                },
                ParseKindView::Literal(l) => (Ok(ExprView::Literal(l)), step(st)),
                ParseKindView::Doug(_) | ParseKindView::Bald => {
                    let d = doug_expr(ts, st, Seq::empty());
                    match d.0 {
                        Ok(chains) => (Ok(ExprView::DougSequence { chains }), d.1),
                        Err(e) => (Err(e), d.1),
                    }
                },
                ParseKindView::RParen => (Err(SyntaxErrorView::BreakFromExprTree), st),
                _ => (Err(expected("expression"@, t, st)), st),
            },
        }
    }
}

/// An expression: an operand, and where an operator that no `set` follows comes next,
/// that operator and, if one can be read, a second operand.
pub open spec fn parse_expr(ts: Seq<ParseTokenView>, st: PState) -> (Result<ExprView, SyntaxErrorView>, PState)
    decreases ts.len() - st.pos, 1int,
{
    if !wf(ts, st) {
        (Err(SyntaxErrorView::BreakFromExprTree), st)
    } else {
        let l = tokens_to_expr(ts, st);
        match l.0 {
            Err(e) => (Err(e), l.1),
            Ok(left) => {
                let s1 = l.1;
                match peek(ts, s1) {
                    Some(t) => match t.kind {
                        ParseKindView::Operator(op) => if set_follows(ts, s1) || s1.pos < st.pos {
                            (Ok(left), s1)
                        } else {
                            let r = tokens_to_expr(ts, step(s1));
                            (
                                Ok(ExprView::Condition {
                                    left: Box::new(left),
                                    operator: Some(op),
                                    right: match r.0 {
                                        Ok(x) => Some(Box::new(x)),
                                        Err(_) => None,
                                    },
                                }),
                                r.1,
                            )
                        },
                        _ => (Ok(left), s1),
                    },
                    None => (Ok(left), s1),
                }
            },
        }
    }
}

/// An assignment: `set` and an expression, or an operator, `set` and an expression.
pub open spec fn set_expr(ts: Seq<ParseTokenView>, st: PState) -> (Result<(ExprView, Option<Operator>), SyntaxErrorView>, PState) {
    let c = consume(ts, st);
    match c.0 {
        Err(e) => (Err(e), c.1),
        Ok(t) => match t.kind {
            ParseKindView::Assign => {
                let r = parse_expr(ts, c.1);
                match r.0 {
                    Ok(v) => (Ok((v, None)), r.1),
                    Err(e) => (Err(e), r.1),
                }
            },
            ParseKindView::Operator(op) => {
                let c2 = consume(ts, c.1);
                match c2.0 {
                    Err(e) => (Err(e), c2.1),
                    Ok(t2) => if t2.kind is Assign {
                        let r = parse_expr(ts, c2.1);
                        match r.0 {
                            Ok(v) => (Ok((v, Some(op))), r.1),
                            Err(e) => (Err(e), r.1),
                        }
                    } else {
                        (Err(expected("set"@, t2, c2.1)), c2.1)
                    },
                }
            },
            _ => (Err(expected("set, operator"@, t, c.1)), c.1),
        },
    }
}

/// The Doug chains that follow on the line, after those in `acc`.
pub open spec fn doug_tail(ts: Seq<ParseTokenView>, st: PState, acc: Seq<ReferenceView>) -> (Seq<ReferenceView>, PState)
    decreases ts.len() - st.pos,
{
    if !wf(ts, st) {
        (acc, st)
    } else {
        match peek(ts, st) {
            Some(t) => match t.kind {
                ParseKindView::Doug(c) => doug_tail(ts, step(st), acc.push(ReferenceView::Doug(DougChain { count: c }))),
                _ => (acc, st),
            },
            None => (acc, st),
        }
    }
}

/// The cell reference that `t` starts: `Bald` resets the cursor and starts no chain, a
/// Doug chain starts one; the Doug chains that follow on the line continue it.
pub open spec fn doug_node(ts: Seq<ParseTokenView>, st: PState, t: ParseTokenView) -> (Result<StmtView, SyntaxErrorView>, PState) {
    match t.kind {
        ParseKindView::Bald => {
            let d = doug_tail(ts, st, Seq::empty());
            (Ok(StmtView::Doug { chains: d.0, reset: true }), d.1)
        },
        ParseKindView::Doug(c) => {
            let d = doug_tail(ts, st, seq![ReferenceView::Doug(DougChain { count: c })]);
            (Ok(StmtView::Doug { chains: d.0, reset: false }), d.1)
        },
        _ => (Err(expected("Bald, Doug, variable name"@, t, st)), st),
    }
}

/// The assignments that follow a cell reference, each appended to `acc`, for as long as
/// the next buffered token is `set` or an operator.
pub open spec fn set_chain(ts: Seq<ParseTokenView>, st: PState, acc: Seq<StmtView>) -> (Result<Seq<StmtView>, SyntaxErrorView>, PState)
    decreases ts.len() - st.pos,
{
    if !wf(ts, st) {
        (Ok(acc), st)
    } else {
        match peek(ts, st) {
            Some(t) => if t.kind is Assign || t.kind is Operator {
                let r = set_expr(ts, st);
                match r.0 {
                    Err(e) => (Err(e), r.1),
                    Ok(p) => {
                        let acc2 = acc.push(StmtView::Assign { value: p.0, oper: p.1 });
                        if advanced(ts, st, r.1) {
                            set_chain(ts, r.1, acc2)
                        } else {
                            (Ok(acc2), r.1)
                        }
                    },
                }
            } else {
                (Ok(acc), st)
            },
            None => (Ok(acc), st),
        }
    }
}

/// What one statement of a block does to the parse: it ends the block, with its
/// statements or an error, or appends to them and lets the block go on.
pub enum BlockStep {
    Done(Result<Seq<StmtView>, SyntaxErrorView>, PState),
    Next(Seq<StmtView>, PState),
}

/// The step a block takes from `st` after the statements `acc`: it reads a token and
/// the statement that token starts.
pub open spec fn stmt_step(ts: Seq<ParseTokenView>, st: PState, is_top: bool, acc: Seq<StmtView>) -> BlockStep
    decreases ts.len() - st.pos, 0int,
{
    if !wf(ts, st) {
        BlockStep::Done(Ok(acc), st)
    } else {
        let c = consume(ts, st);
        match c.0 {
            Err(_) => if is_top {
                BlockStep::Done(Ok(acc), c.1)
            } else {
                BlockStep::Done(Err(SyntaxErrorView::Expected("]"@, Seq::empty(), c.1.row, c.1.col)), c.1)
            },
            Ok(tok) => {
                let s1 = c.1;
                match tok.kind {
                    ParseKindView::Tts | ParseKindView::Ttss => {
                        let r = parse_expr(ts, s1);
                        let overlap = tok.kind is Ttss;
                        let stmt = match r.0 {
                            Ok(m) => StmtView::Tts { msg: Some(m), use_index: false, overlap },
                            Err(_) => StmtView::Tts { msg: None, use_index: true, overlap },
                        };
                        BlockStep::Next(acc.push(stmt), r.1)
                    },
                    ParseKindView::Guod => {
                        let r = parse_expr(ts, s1);
                        let stmt = match r.0 {
                            Ok(v) => StmtView::Guod { value: Some(v), use_index: false },
                            Err(_) => StmtView::Guod { value: None, use_index: true },
                        };
                        BlockStep::Next(acc.push(stmt), r.1)
                    },
                    ParseKindView::Rigged => BlockStep::Next(acc, consume(ts, s1).1),
                    ParseKindView::Assign => {
                        let r = parse_expr(ts, s1);
                        match r.0 {
                            Ok(v) => BlockStep::Next(acc.push(StmtView::Assign { value: v, oper: None }), r.1),
                            Err(e) => BlockStep::Done(Err(e), r.1),
                        }
                    },
                    ParseKindView::Operator(op) => {
                        let r = set_expr(ts, s1);
                        match r.0 {
                            Ok(p) => BlockStep::Next(acc.push(StmtView::Assign { value: p.0, oper: Some(op) }), r.1),
                            Err(e) => BlockStep::Done(Err(e), r.1),
                        }
                    },
                    ParseKindView::Loop => {
                        let open = consume(ts, s1);
                        match open.0 {
                            Err(e) => BlockStep::Done(Err(e), open.1),
                            Ok(o) => if !(o.kind is LSquare) {
                                BlockStep::Done(Err(expected("["@, o, open.1)), open.1)
                            } else {
                                let b = block(ts, open.1, false);
                                match b.0 {
                                    Ok(body) => BlockStep::Next(acc.push(StmtView::Loop { body }), b.1),
                                    Err(e) => BlockStep::Done(Err(e), b.1),
                                }
                            },
                        }
                    },
                    ParseKindView::Prediction => {
                        let r = parse_expr(ts, s1);
                        match r.0 {
                            Err(e) => BlockStep::Done(Err(e), r.1),
                            Ok(condition) => {
                                let open = consume(ts, r.1);
                                match open.0 {
                                    Err(e) => BlockStep::Done(Err(e), open.1),
                                    Ok(o) => if !(o.kind is LSquare) {
                                        BlockStep::Done(Err(expected("["@, o, open.1)), open.1)
                                    } else if !advanced(ts, st, open.1) {
                                        BlockStep::Done(Ok(acc), open.1)
                                    } else {
                                        let a = prediction_arms(ts, open.1, Seq::empty(), Seq::empty());
                                        match a.0 {
                                            Ok(arms) => BlockStep::Next(
                                                acc.push(StmtView::Prediction {
                                                    believe_body: arms.0,
                                                    doubt_body: arms.1,
                                                    condition,
                                                }),
                                                a.1,
                                            ),
                                            Err(e) => BlockStep::Done(Err(e), a.1),
                                        }
                                    },
                                }
                            },
                        }
                    },
                    ParseKindView::Bald | ParseKindView::Doug(_) => {
                        let n = doug_node(ts, s1, tok);
                        match n.0 {
                            Err(e) => BlockStep::Done(Err(e), n.1),
                            Ok(node) => {
                                let chain = set_chain(ts, n.1, acc.push(node));
                                match chain.0 {
                                    Ok(stmts) => BlockStep::Next(stmts, chain.1),
                                    Err(e) => BlockStep::Done(Err(e), chain.1),
                                }
                            },
                        }
                    },
                    ParseKindView::LParen => {
                        let d = doug_expr(ts, s1, Seq::empty());
                        match d.0 {
                            Err(e) => BlockStep::Done(Err(e), d.1),
                            Ok(chains) => {
                                let close = consume(ts, d.1);
                                match close.0 {
                                    Err(e) => BlockStep::Done(Err(e), close.1),
                                    Ok(cl) => if cl.kind is RParen {
                                        BlockStep::Next(acc.push(StmtView::Doug { chains, reset: true }), close.1)
                                    } else {
                                        BlockStep::Done(Err(expected(")"@, cl, close.1)), close.1)
                                    },
                                }
                            },
                        }
                    },
                    ParseKindView::RSquare => if is_top {
                        BlockStep::Done(
                            Err(SyntaxErrorView::Unexpected("] in top level"@, s1.row, s1.col)),
                            s1,
                        )
                    } else {
                        BlockStep::Done(Ok(acc), s1)
                    },
                    _ => BlockStep::Done(Err(unexpected(tok, s1)), s1),
                }
            },
        }
    }
}

/// The statements of a block from `st` on, after those in `acc`: a nested block ends at
/// its `]`, the whole program at the end of its tokens.
pub open spec fn block_loop(ts: Seq<ParseTokenView>, st: PState, is_top: bool, acc: Seq<StmtView>) -> (Result<Seq<StmtView>, SyntaxErrorView>, PState)
    decreases ts.len() - st.pos, 1int,
{
    if !wf(ts, st) {
        (Ok(acc), st)
    } else {
        match stmt_step(ts, st, is_top, acc) {
            BlockStep::Done(r, s) => (r, s),
            BlockStep::Next(acc2, s) => if advanced(ts, st, s) {
                block_loop(ts, s, is_top, acc2)
            } else {
                (Ok(acc2), s)
            },
        }
    }
}

/// The arms of a prediction from `st` on, after `believers` and `doubters`: each arm is
/// `Believers win [ ... ]` or `Doubters win [ ... ]`, a later arm of a side replacing
/// an earlier one, and `]` ends them.
pub open spec fn prediction_arms(ts: Seq<ParseTokenView>, st: PState, believers: Seq<StmtView>, doubters: Seq<StmtView>) -> (Result<(Seq<StmtView>, Seq<StmtView>), SyntaxErrorView>, PState)
    decreases ts.len() - st.pos, 1int,
{
    if !wf(ts, st) {
        (Ok((believers, doubters)), st)
    } else {
        let c = consume(ts, st);
        match c.0 {
            Err(e) => (Err(e), c.1),
            Ok(t) => match t.kind {
                ParseKindView::Believers | ParseKindView::Doubters => {
                    let w = consume(ts, c.1);
                    match w.0 {
                        Err(e) => (Err(e), w.1),
                        Ok(wt) => if !(wt.kind is Win) {
                            (Err(expected("win"@, wt, w.1)), w.1)
                        } else {
                            let open = consume(ts, w.1);
                            match open.0 {
                                Err(e) => (Err(e), open.1),
                                Ok(o) => if !(o.kind is LSquare) {
                                    (Err(expected("["@, o, open.1)), open.1)
                                } else {
                                    let b = block(ts, open.1, false);
                                    match b.0 {
                                        Err(e) => (Err(e), b.1),
                                        Ok(body) => {
                                            let (bel, dou) = if t.kind is Believers {
                                                (body, doubters)
                                            } else {
                                                (believers, body)
                                            };
                                            if advanced(ts, st, b.1) {
                                                prediction_arms(ts, b.1, bel, dou)
                                            } else {
                                                (Ok((bel, dou)), b.1)
                                            }
                                        },
                                    }
                                },
                            }
                        },
                    }
                },
                ParseKindView::RSquare => (Ok((believers, doubters)), c.1),
                _ => (Err(expected("believers, doubters, ]"@, t, c.1)), c.1),
            },
        }
    }
}

/// A block read from `st`: it starts by moving the row on and putting the column back
/// to zero, then reads statements.
pub open spec fn block(ts: Seq<ParseTokenView>, st: PState, is_top: bool) -> (Result<Seq<StmtView>, SyntaxErrorView>, PState)
    decreases ts.len() - st.pos, 2int,
{
    block_loop(ts, enter(st), is_top, Seq::empty())
}

/// The program the tokens `ts` make, read by a parser whose counters start at `row`
/// and `col`: the statements of the top-level block.
pub open spec fn parse_program(ts: Seq<ParseTokenView>, row: u16, col: u16) -> Result<Seq<StmtView>, SyntaxErrorView> {
    block(ts, PState { pos: 0, end: 0, row, col }, true).0
}

} // verus!
