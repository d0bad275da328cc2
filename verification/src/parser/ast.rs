//! The statement tree that the parser builds and the interpreter runs.
use vstd::prelude::*;

use crate::token::{ValueLiteral, ValueLiteralView};
use crate::values::Operator;

verus! {

/// A run of `Doug`s: it moves by two to the power of `count - 1` cells.
#[derive(Debug, Clone, PartialEq, Eq, Structural)]
pub struct DougChain {
    pub count: usize,
}

#[derive(Debug, PartialEq)]
pub enum Expr {
    Literal(ValueLiteral),
    Variable(String),
    DougSequence { chains: Vec<Reference> },
    MainTapeDougSequence { chains: Vec<Reference> },
    Rigged { func: String, args: Vec<Expr> },
    FmcaCall { name: Option<String> },
    Condition { left: Box<Expr>, operator: Option<Operator>, right: Option<Box<Expr>> },
}

/// One link of a cell reference: a Doug chain, or the name of an adventure.
#[derive(Debug, Clone, PartialEq)]
pub enum Reference {
    Doug(DougChain),
    Variable(String),
}

#[derive(Debug, PartialEq)]
pub enum Stmt {
    Doug { chains: Vec<Reference>, reset: bool },
    Tts { msg: Option<Expr>, use_index: bool, overlap: bool },
    Call { name: Option<String>, use_index: bool },
    Guod { value: Option<Expr>, use_index: bool },
    Assign { value: Expr, oper: Option<Operator> },
    Expr(Expr),
    Loop { body: Vec<Stmt> },
    Prediction { believe_body: Vec<Stmt>, doubt_body: Vec<Stmt>, condition: Expr },
    FiveMinuteCodingAdventure { name: String, body: Vec<Stmt> },
}


/// The mathematical content of a [`Reference`].
pub enum ReferenceView {
    Doug(DougChain),
    Variable(Seq<char>),
}

/// The mathematical content of an [`Expr`].
pub enum ExprView {
    Literal(ValueLiteralView),
    Variable(Seq<char>),
    DougSequence { chains: Seq<ReferenceView> },
    MainTapeDougSequence { chains: Seq<ReferenceView> },
    Rigged { func: Seq<char>, args: Seq<ExprView> },
    FmcaCall { name: Option<Seq<char>> },
    Condition { left: Box<ExprView>, operator: Option<Operator>, right: Option<Box<ExprView>> },
}

/// The mathematical content of a [`Stmt`].
pub enum StmtView {
    Doug { chains: Seq<ReferenceView>, reset: bool },
    Tts { msg: Option<ExprView>, use_index: bool, overlap: bool },
    Call { name: Option<Seq<char>>, use_index: bool },
    Guod { value: Option<ExprView>, use_index: bool },
    Assign { value: ExprView, oper: Option<Operator> },
    Expr(ExprView),
    Loop { body: Seq<StmtView> },
    Prediction { believe_body: Seq<StmtView>, doubt_body: Seq<StmtView>, condition: ExprView },
    FiveMinuteCodingAdventure { name: Seq<char>, body: Seq<StmtView> },
}

pub open spec fn opt_string_view(o: Option<String>) -> Option<Seq<char>> {
    match o {
        Some(s) => Some(s@),
        None => None,
    }
}

pub open spec fn reference_view(r: Reference) -> ReferenceView {
    match r {
        Reference::Doug(c) => ReferenceView::Doug(c),
        Reference::Variable(v) => ReferenceView::Variable(v@),
    }
}

pub open spec fn references_view(v: Seq<Reference>) -> Seq<ReferenceView> {
    Seq::new(v.len(), |i: int| reference_view(v[i]))
}

/// The views of a sequence of expressions.
pub open spec fn exprs_view(v: Seq<Expr>) -> Seq<ExprView>
    decreases v,
{
    Seq::new(
        v.len(),
        |i: int|
            if 0 <= i < v.len() {
                expr_view(v[i])
            } else {
                ExprView::Variable(seq![])
            },
    )
}

pub open spec fn expr_view(e: Expr) -> ExprView
    decreases e,
{
    match e {
        Expr::Literal(l) => ExprView::Literal(l@),
        Expr::Variable(v) => ExprView::Variable(v@),
        Expr::DougSequence { chains } => ExprView::DougSequence { chains: references_view(chains@) },
        Expr::MainTapeDougSequence { chains } => ExprView::MainTapeDougSequence {
            chains: references_view(chains@),
        },
        Expr::Rigged { func, args } => ExprView::Rigged {
            func: func@,
            args: exprs_view(args@),
        },
        Expr::FmcaCall { name } => ExprView::FmcaCall { name: opt_string_view(name) },
        Expr::Condition { left, operator, right } => ExprView::Condition {
            left: Box::new(expr_view(*left)),
            operator,
            right: match right {
                Some(r) => Some(Box::new(expr_view(*r))),
                None => None,
            },
        },
    }
}

pub open spec fn opt_expr_view(e: Option<Expr>) -> Option<ExprView> {
    match e {
        Some(x) => Some(expr_view(x)),
        None => None,
    }
}

/// The views of a sequence of statements.
pub open spec fn stmts_view(v: Seq<Stmt>) -> Seq<StmtView>
    decreases v,
{
    Seq::new(
        v.len(),
        |i: int|
            if 0 <= i < v.len() {
                stmt_view(v[i])
            } else {
                StmtView::Expr(ExprView::Variable(seq![]))
            },
    )
}

pub open spec fn stmt_view(s: Stmt) -> StmtView
    decreases s,
{
    match s {
        Stmt::Doug { chains, reset } => StmtView::Doug { chains: references_view(chains@), reset },
        Stmt::Tts { msg, use_index, overlap } => StmtView::Tts {
            msg: opt_expr_view(msg),
            use_index,
            overlap,
        },
        Stmt::Call { name, use_index } => StmtView::Call { name: opt_string_view(name), use_index },
        Stmt::Guod { value, use_index } => StmtView::Guod { value: opt_expr_view(value), use_index },
        Stmt::Assign { value, oper } => StmtView::Assign { value: expr_view(value), oper },
        Stmt::Expr(e) => StmtView::Expr(expr_view(e)),
        Stmt::Loop { body } => StmtView::Loop {
            body: stmts_view(body@),
        },
        Stmt::Prediction { believe_body, doubt_body, condition } => StmtView::Prediction {
            believe_body: stmts_view(believe_body@),
            doubt_body: stmts_view(doubt_body@),
            condition: expr_view(condition),
        },
        Stmt::FiveMinuteCodingAdventure { name, body } => StmtView::FiveMinuteCodingAdventure {
            name: name@,
            body: stmts_view(body@),
        },
    }
}


impl View for Reference {
    type V = ReferenceView;

    open spec fn view(&self) -> ReferenceView {
        reference_view(*self)
    }
}

impl View for Expr {
    type V = ExprView;

    open spec fn view(&self) -> ExprView {
        expr_view(*self)
    }
}

impl View for Stmt {
    type V = StmtView;

    open spec fn view(&self) -> StmtView {
        stmt_view(*self)
    }
}

fn clone_string(s: &String) -> (r: String)
    ensures
        r@ == s@,
{
    s.clone()
}

fn clone_opt_string(s: &Option<String>) -> (r: Option<String>)
    ensures
        opt_string_view(r) == opt_string_view(*s),
{
    match s {
        Some(x) => Some(clone_string(x)),
        None => None,
    }
}

impl ValueLiteral {
    /// A copy of this literal.
    pub fn duplicate(&self) -> (r: ValueLiteral)
        ensures
            r@ == self@,
    {
        match self {
            ValueLiteral::Int(i) => ValueLiteral::Int(*i),
            ValueLiteral::Float(s) => ValueLiteral::Float(clone_string(s)),
            ValueLiteral::Str(s) => ValueLiteral::Str(clone_string(s)),
        }
    }
}

impl Reference {
    /// A copy of this reference.
    pub fn duplicate(&self) -> (r: Reference)
        ensures
            r@ == self@,
    {
        match self {
            Reference::Doug(c) => Reference::Doug(DougChain { count: c.count }),
            Reference::Variable(v) => Reference::Variable(clone_string(v)),
        }
    }
}

/// A copy of a sequence of references.
pub fn duplicate_references(v: &Vec<Reference>) -> (r: Vec<Reference>)
    ensures
        references_view(r@) == references_view(v@),
{
    let mut out: Vec<Reference> = Vec::new();
    let mut i: usize = 0;
    while i < v.len()
        invariant
            i <= v.len(),
            out@.len() == i,
            forall|j: int| 0 <= j < i ==> reference_view(#[trigger] out@[j]) == reference_view(v@[j]),
        decreases v.len() - i,
    {
        out.push(v[i].duplicate());
        i = i + 1;
    }
    assert(references_view(out@) =~= references_view(v@));
    out
}

impl Expr {
    /// A copy of this expression, all the way down.
    #[verifier::loop_isolation(false)]
    pub fn deep_clone(&self) -> (r: Expr)
        ensures
            r@ == self@,
        decreases self,
    {
        match self {
            Expr::Literal(l) => {
                let d = l.duplicate();
                let r = Expr::Literal(d);
                assert(expr_view(r) == ExprView::Literal(d@));
                r
            },
            Expr::Variable(v) => Expr::Variable(clone_string(v)),
            Expr::DougSequence { chains } => Expr::DougSequence { chains: duplicate_references(chains) },
            Expr::MainTapeDougSequence { chains } => Expr::MainTapeDougSequence {
                chains: duplicate_references(chains),
            },
            Expr::Rigged { func, args } => {
                let mut out: Vec<Expr> = Vec::new();
                let mut i: usize = 0;
                while i < args.len()
                    invariant
                        i <= args.len(),
                        out@.len() == i,
                        forall|j: int| 0 <= j < i ==> expr_view(#[trigger] out@[j]) == expr_view(args@[j]),
                    decreases args.len() - i,
                {
                    proof {
                        vstd::std_specs::vec::axiom_vec_index_decreases(*args, i as int);
                    }
                    out.push(args[i].deep_clone());
                    i = i + 1;
                }
                let r = Expr::Rigged { func: clone_string(func), args: out };
                assert(exprs_view(out@) =~= exprs_view(args@));
                proof {
                }
                r
            },
            Expr::FmcaCall { name } => Expr::FmcaCall { name: clone_opt_string(name) },
            Expr::Condition { left, operator, right } => {
                let l = left.deep_clone();
                let r = match right {
                    Some(x) => Some(Box::new(x.deep_clone())),
                    None => None,
                };
                Expr::Condition { left: Box::new(l), operator: *operator, right: r }
            },
        }
    }
}

fn clone_opt_expr(e: &Option<Expr>) -> (r: Option<Expr>)
    ensures
        opt_expr_view(r) == opt_expr_view(*e),
{
    match e {
        Some(x) => Some(x.deep_clone()),
        None => None,
    }
}

/// A copy of a sequence of statements, all the way down.
#[verifier::loop_isolation(false)]
pub fn clone_stmts(v: &Vec<Stmt>) -> (r: Vec<Stmt>)
    ensures
        stmts_view(r@) == stmts_view(v@),
    decreases v,
{
    let mut out: Vec<Stmt> = Vec::new();
    let mut i: usize = 0;
    while i < v.len()
        invariant
            i <= v.len(),
            out@.len() == i,
            forall|j: int| 0 <= j < i ==> stmt_view(#[trigger] out@[j]) == stmt_view(v@[j]),
        decreases v.len() - i,
    {
        proof {
            vstd::std_specs::vec::axiom_vec_index_decreases(*v, i as int);
        }
        out.push(v[i].deep_clone());
        i = i + 1;
    }
    assert(stmts_view(out@) =~= stmts_view(v@));
    out
}

impl Stmt {
    /// A copy of this statement, all the way down.
    pub fn deep_clone(&self) -> (r: Stmt)
        ensures
            r@ == self@,
        decreases self,
    {
        match self {
            Stmt::Doug { chains, reset } => Stmt::Doug { chains: duplicate_references(chains), reset: *reset },
            Stmt::Tts { msg, use_index, overlap } => Stmt::Tts {
                msg: clone_opt_expr(msg),
                use_index: *use_index,
                overlap: *overlap,
            },
            Stmt::Call { name, use_index } => Stmt::Call { name: clone_opt_string(name), use_index: *use_index },
            Stmt::Guod { value, use_index } => Stmt::Guod { value: clone_opt_expr(value), use_index: *use_index },
            Stmt::Assign { value, oper } => Stmt::Assign { value: value.deep_clone(), oper: *oper },
            Stmt::Expr(e) => Stmt::Expr(e.deep_clone()),
            Stmt::Loop { body } => {
                let b = clone_stmts(body);
                let r = Stmt::Loop { body: b };
                assert(r@ == self@) by {
                    assert(stmts_view(b@) == stmts_view(body@));
                }
                r
            },
            Stmt::Prediction { believe_body, doubt_body, condition } => {
                let b = clone_stmts(believe_body);
                let d = clone_stmts(doubt_body);
                let r = Stmt::Prediction { believe_body: b, doubt_body: d, condition: condition.deep_clone() };
                assert(r@ == self@) by {
                    assert(stmts_view(b@) == stmts_view(believe_body@));
                    assert(stmts_view(d@) == stmts_view(doubt_body@));
                }
                r
            },
            Stmt::FiveMinuteCodingAdventure { name, body } => {
                let b = clone_stmts(body);
                let r = Stmt::FiveMinuteCodingAdventure { name: clone_string(name), body: b };
                assert(r@ == self@) by {
                    assert(stmts_view(b@) == stmts_view(body@));
                }
                r
            },
        }
    }
}

} // verus!
