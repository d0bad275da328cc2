//! Comparison and assignment operators as written in source, and the statement tree
//! they appear in.
use vstd::prelude::*;

use crate::token::ValueLiteral;

verus! {

/// A comparison in a prediction's condition.
#[derive(Debug, Clone, Copy, PartialEq, Eq, Structural)]
pub enum BoolOper {
    Equal,
    NotEqual,
    Greater,
    Less,
    GreaterEqual,
    LessEqual,
}

/// An assignment to the current cell: a plain `set`, or one combined with arithmetic.
#[derive(Debug, Clone, Copy, PartialEq, Eq, Structural)]
pub enum SetOper {
    Assign,
    Add,
    Sub,
    Mul,
    Div,
    Mod,
}

/// A run of `Doug`s: it moves by two to the power of `count - 1` cells.
#[derive(Debug, Clone, PartialEq, Eq)]
pub struct DougChain {
    pub count: usize,
}

#[derive(Debug, PartialEq)]
pub enum Expr {
    Literal(ValueLiteral),
    DougSequence { chains: Vec<DougChain> },
    Rigged { func: String, args: Vec<Expr> },
}

#[derive(Debug, PartialEq)]
pub struct Condition {
    pub left: Expr,
    pub oper: BoolOper,
    pub right: Expr,
}

#[derive(Debug, PartialEq)]
pub enum Stmt {
    Doug { chains: Vec<DougChain>, reset: bool },
    Tts { msg: Option<Expr>, use_index: bool, overlap: bool },
    Assign { value: Expr, oper: SetOper },
    Expr(Expr),
    Loop { body: Vec<Stmt> },
    Guod,
    Prediction { believe_body: Vec<Stmt>, doubt_body: Vec<Stmt>, condition: Condition },
}

} // verus!
