//! Mappings from token kinds to operators and to names.
use vstd::prelude::*;

use crate::ast::{BoolOper, SetOper};
use crate::token::TokenKind;

verus! {

/// The comparison a token stands for.
pub open spec fn comp_oper_of(kind: TokenKind) -> Option<BoolOper> {
    match kind {
        TokenKind::ComparisonEqual => Some(BoolOper::Equal),
        TokenKind::ComparisonNotEqual => Some(BoolOper::NotEqual),
        TokenKind::ComparisonGreater => Some(BoolOper::Greater),
        TokenKind::ComparisonGreaterEqual => Some(BoolOper::GreaterEqual),
        TokenKind::ComparisonLess => Some(BoolOper::Less),
        TokenKind::ComparisonLessEqual => Some(BoolOper::LessEqual),
        _ => None,
    }
}

/// The assignment a token stands for.
pub open spec fn set_oper_of(kind: TokenKind) -> Option<SetOper> {
    match kind {
        TokenKind::Assign => Some(SetOper::Assign),
        TokenKind::AddSet => Some(SetOper::Add),
        TokenKind::SubSet => Some(SetOper::Sub),
        TokenKind::MulSet => Some(SetOper::Mul),
        TokenKind::DivSet => Some(SetOper::Div),
        TokenKind::ModSet => Some(SetOper::Mod),
        _ => None,
    }
}

pub fn comp_oper(kind: &TokenKind) -> (r: Option<BoolOper>)
    ensures
        r == comp_oper_of(*kind),
{
    match kind {
        TokenKind::ComparisonEqual => Some(BoolOper::Equal),
        TokenKind::ComparisonNotEqual => Some(BoolOper::NotEqual),
        TokenKind::ComparisonGreater => Some(BoolOper::Greater),
        TokenKind::ComparisonGreaterEqual => Some(BoolOper::GreaterEqual),
        TokenKind::ComparisonLess => Some(BoolOper::Less),
        TokenKind::ComparisonLessEqual => Some(BoolOper::LessEqual),
        _ => None,
    }
}

pub fn set_oper(kind: &TokenKind) -> (r: Option<SetOper>)
    ensures
        r == set_oper_of(*kind),
{
    match kind {
        TokenKind::Assign => Some(SetOper::Assign),
        TokenKind::AddSet => Some(SetOper::Add),
        TokenKind::SubSet => Some(SetOper::Sub),
        TokenKind::MulSet => Some(SetOper::Mul),
        TokenKind::DivSet => Some(SetOper::Div),
        TokenKind::ModSet => Some(SetOper::Mod),
        _ => None,
    }
}

/// The name a token kind is shown by.
pub open spec fn token_name_of(kind: TokenKind) -> Seq<char> {
    match kind {
        TokenKind::Doug { .. } => "DougToken"@,
        TokenKind::Bald => "BaldToken"@,
        TokenKind::Tts => "TTSToken"@,
        TokenKind::Ttss => "TTSSToken"@,
        TokenKind::Assign => "SetToken"@,
        TokenKind::AddSet => "AddSetToken"@,
        TokenKind::SubSet => "SubSetToken"@,
        TokenKind::MulSet => "MulSetToken"@,
        TokenKind::DivSet => "DivSetToken"@,
        TokenKind::ModSet => "ModSetToken"@,
        TokenKind::Loop => "LoopToken"@,
        TokenKind::Guod => "GuodToken"@,
        TokenKind::Rigged => "RiggedToken"@,
        TokenKind::Prediction => "PredictionToken"@,
        TokenKind::Believers => "BelieversToken"@,
        TokenKind::Doubters => "DoubtersToken"@,
        TokenKind::Win => "WinToken"@,
        TokenKind::Literal(_) => "LiteralToken"@,
        TokenKind::LParen => "LParenToken"@,
        TokenKind::RParen => "RParenToken"@,
        TokenKind::LSquare => "LSquareToken"@,
        TokenKind::RSquare => "RSquareToken"@,
        TokenKind::ComparisonEqual => "ComparisonEqualToken"@,
        TokenKind::ComparisonNotEqual => "ComparisonNotEqualToken"@,
        TokenKind::ComparisonGreater => "ComparisonGreaterToken"@,
        TokenKind::ComparisonLess => "ComparisonLessToken"@,
        TokenKind::ComparisonGreaterEqual => "ComparisonGreaterEqualToken"@,
        TokenKind::ComparisonLessEqual => "ComparisonLessEqualToken"@,
    }
}

pub fn token_name(kind: &TokenKind) -> (s: &'static str)
    ensures
        s@ == token_name_of(*kind),
{
    match kind {
        TokenKind::Doug { .. } => "DougToken",
        TokenKind::Bald => "BaldToken",
        TokenKind::Tts => "TTSToken",
        TokenKind::Ttss => "TTSSToken",
        TokenKind::Assign => "SetToken",
        TokenKind::AddSet => "AddSetToken",
        TokenKind::SubSet => "SubSetToken",
        TokenKind::MulSet => "MulSetToken",
        TokenKind::DivSet => "DivSetToken",
        TokenKind::ModSet => "ModSetToken",
        TokenKind::Loop => "LoopToken",
        TokenKind::Guod => "GuodToken",
        TokenKind::Rigged => "RiggedToken",
        TokenKind::Prediction => "PredictionToken",
        TokenKind::Believers => "BelieversToken",
        TokenKind::Doubters => "DoubtersToken",
        TokenKind::Win => "WinToken",
        TokenKind::Literal(_) => "LiteralToken",
        TokenKind::LParen => "LParenToken",
        TokenKind::RParen => "RParenToken",
        TokenKind::LSquare => "LSquareToken",
        TokenKind::RSquare => "RSquareToken",
        TokenKind::ComparisonEqual => "ComparisonEqualToken",
        TokenKind::ComparisonNotEqual => "ComparisonNotEqualToken",
        TokenKind::ComparisonGreater => "ComparisonGreaterToken",
        TokenKind::ComparisonLess => "ComparisonLessToken",
        TokenKind::ComparisonGreaterEqual => "ComparisonGreaterEqualToken",
        TokenKind::ComparisonLessEqual => "ComparisonLessEqualToken",
    }
}

} // verus!
