//! The values a program computes with, as kept on the tape.
use vstd::prelude::*;

use crate::parser::ast::{clone_stmts, Stmt, StmtView, stmts_view};
use crate::runtime::RuntimeError;

verus! {

/// A string object on the heap.
#[derive(Debug, Clone, PartialEq)]
pub struct Text {
    pub inner: String,
}

impl Text {
    pub fn from_string(value: String) -> (t: Text)
        ensures
            t.inner == value,
    {
        Text { inner: value }
    }
}

/// A five minute coding adventure: a block of statements stored on the tape.
#[derive(Debug, PartialEq)]
pub struct FiveMinuteCodingAdventure {
    nodes: Vec<Stmt>,
}

impl View for FiveMinuteCodingAdventure {
    type V = Seq<StmtView>;

    closed spec fn view(&self) -> Seq<StmtView> {
        stmts_view(self.nodes@)
    }
}

impl FiveMinuteCodingAdventure {
    pub fn get_nodes(&self) -> (r: &[Stmt])
        ensures
            stmts_view(r@) == self@,
    {
        self.nodes.as_slice()
    }

    pub fn new(nodes: Vec<Stmt>) -> (f: Self)
        ensures
            f@ == stmts_view(nodes@),
    {
        FiveMinuteCodingAdventure { nodes }
    }

    /// A copy of this adventure, all the way down.
    pub fn deep_clone(&self) -> (f: Self)
        ensures
            f@ == self@,
    {
        FiveMinuteCodingAdventure { nodes: clone_stmts(&self.nodes) }
    }
}

/// The empty object.
#[derive(Debug, Clone, PartialEq, PartialOrd)]
pub struct Nil {}

/// An array object.
#[derive(Debug, Clone, Copy, PartialEq)]
pub struct Array {}

/// A value of a running program.
///
/// A number is held as the bit pattern of its IEEE 754 double; this library stores
/// and moves numbers but never computes with them.
#[derive(Debug, PartialEq)]
pub enum Value {
    String(String),
    Number(u64),
    Boolean(bool),
    Error(RuntimeError),
    FiveMinuteCodingAdventure(FiveMinuteCodingAdventure),
    Nil,
}

/// The mathematical content of a [`Value`].
pub enum ValueView {
    String(Seq<char>),
    Number(u64),
    Boolean(bool),
    Error(RuntimeError),
    FiveMinuteCodingAdventure(Seq<StmtView>),
    Nil,
}

impl View for Value {
    type V = ValueView;

    open spec fn view(&self) -> ValueView {
        match self {
            Value::String(s) => ValueView::String(s@),
            Value::Number(n) => ValueView::Number(*n),
            Value::Boolean(b) => ValueView::Boolean(*b),
            Value::Error(e) => ValueView::Error(*e),
            Value::FiveMinuteCodingAdventure(f) => ValueView::FiveMinuteCodingAdventure(f@),
            Value::Nil => ValueView::Nil,
        }
    }
}

/// Whether a double with the given bit pattern is non-zero (a NaN counts as non-zero).
pub open spec fn number_is_nonzero(bits: u64) -> bool {
    bits & 0x7fff_ffff_ffff_ffffu64 != 0
}

/// Whether a value counts as true in a condition.
pub open spec fn truthy(v: ValueView) -> bool {
    match v {
        ValueView::Boolean(b) => b,
        ValueView::Number(n) => number_is_nonzero(n),
        ValueView::String(s) => s.len() != 0,
        ValueView::Error(_) => false,
        ValueView::FiveMinuteCodingAdventure(_) => false,
        ValueView::Nil => false,
    }
}

/// A number counts as true exactly when, read as a double, it is not equal to zero: its
/// bits are neither those of `0.0` (all clear) nor those of `-0.0` (the sign alone).
/// So every negative number counts as true, and so does a NaN.
pub proof fn lemma_number_truth(bits: u64)
    ensures
        truthy(ValueView::Number(bits)) <==> !(bits == 0u64 || bits == 0x8000_0000_0000_0000u64),
        bits >= 0x8000_0000_0000_0000u64 && bits != 0x8000_0000_0000_0000u64 ==> truthy(ValueView::Number(bits)),
{
    assert((bits & 0x7fff_ffff_ffff_ffffu64 != 0) <==> !(bits == 0u64 || bits == 0x8000_0000_0000_0000u64))
        by (bit_vector);
}

impl Value {
    /// Whether this value counts as true in a condition: a true boolean, a non-zero
    /// number or a non-empty string.
    pub fn into_bool(&self) -> (b: bool)
        ensures
            b == truthy(self@),
    {
        match self {
            Value::Boolean(b) => *b,
            Value::Number(n) => *n & 0x7fff_ffff_ffff_ffffu64 != 0,
            Value::String(s) => {
                let c = crate::text::str_chars(s.as_str());
                c.len() != 0
            },
            Value::Error(_) => false,
            Value::FiveMinuteCodingAdventure(_) => false,
            Value::Nil => false,
        }
    }
}

} // verus!
