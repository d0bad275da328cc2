//! The operators of expressions.
use vstd::prelude::*;

verus! {

/// The operators of expressions and compound assignments.
#[derive(Clone, Copy, Debug, PartialEq, Eq, Structural, PartialOrd)]
pub enum Operator {
    Plus,
    Minus,
    Multiply,
    Divide,
    Modulo,
    Equals,
    NotEquals,
    Greater,
    GreaterEquals,
    Less,
    LessEquals,
    BitShiftRight,
    BitShiftLeft,
    BinaryXor,
    BinaryOr,
    BinaryAnd,
    LogicalXor,
    LogicalOr,
    LogicalAnd,
}

/// The text an operator is shown as.
pub open spec fn operator_text(o: Operator) -> Seq<char> {
    match o {
        Operator::Plus => "+"@,
        Operator::Minus => "-"@,
        Operator::Multiply => "*"@,
        Operator::Divide => "/"@,
        Operator::Modulo => "%"@,
        Operator::Equals => "=="@,
        Operator::NotEquals => "!="@,
        Operator::Greater => ">"@,
        Operator::GreaterEquals => ">="@,
        Operator::Less => "<"@,
        Operator::LessEquals => "<="@,
        Operator::BitShiftRight => "rump"@,
        Operator::BitShiftLeft => "lump"@,
        Operator::BinaryXor => "xoug"@,
        Operator::BinaryOr => "oug"@,
        Operator::BinaryAnd => "aoug"@,
        Operator::LogicalXor => "xuoD"@,
        Operator::LogicalOr => "ouoD"@,
        Operator::LogicalAnd => "auoD"@,
    }
}

impl Operator {
    /// The text this operator is shown as.
    pub fn text(&self) -> (s: &'static str)
        ensures
            s@ == operator_text(*self),
    {
        match self {
            Operator::Plus => "+",
            Operator::Minus => "-",
            Operator::Multiply => "*",
            Operator::Divide => "/",
            Operator::Modulo => "%",
            Operator::Equals => "==",
            Operator::NotEquals => "!=",
            Operator::Greater => ">",
            Operator::GreaterEquals => ">=",
            Operator::Less => "<",
            Operator::LessEquals => "<=",
            Operator::BitShiftRight => "rump",
            Operator::BitShiftLeft => "lump",
            Operator::BinaryXor => "xoug",
            Operator::BinaryOr => "oug",
            Operator::BinaryAnd => "aoug",
            Operator::LogicalXor => "xuoD",
            Operator::LogicalOr => "ouoD",
            Operator::LogicalAnd => "auoD",
        }
    }
}

} // verus!
