//! The errors the parser reports.
use vstd::prelude::*;

use crate::text::{nat_decimal, push_chars, push_u64_decimal, str_chars, string_from_chars};

verus! {

/// Why a program could not be parsed. Positions are a source line and column, each
/// held to what a `u16` can count.
#[derive(Debug, PartialEq)]
pub enum SyntaxError {
    /// What was expected, what came instead, and where it came.
    Expected(String, String, u16, u16),
    /// A token that cannot stand where it stands, and where it stands.
    Unexpected(String, u16, u16),
    /// The lexer's message; the whole source is lexed before parsing, so the position is
    /// that of the start.
    Lexer(String, u16, u16),
    NotPrintable,
    /// The source ran out of tokens after the given position.
    NoMoreTokens(u16, u16),
    /// An expression ended where a token could not continue it.
    BreakFromExprTree,
}

/// The mathematical content of a [`SyntaxError`].
pub enum SyntaxErrorView {
    Expected(Seq<char>, Seq<char>, u16, u16),
    Unexpected(Seq<char>, u16, u16),
    Lexer(Seq<char>, u16, u16),
    NotPrintable,
    NoMoreTokens(u16, u16),
    BreakFromExprTree,
}

impl View for SyntaxError {
    type V = SyntaxErrorView;

    open spec fn view(&self) -> SyntaxErrorView {
        match self {
            SyntaxError::Expected(a, b, r, c) => SyntaxErrorView::Expected(a@, b@, *r, *c),
            SyntaxError::Unexpected(a, r, c) => SyntaxErrorView::Unexpected(a@, *r, *c),
            SyntaxError::Lexer(a, r, c) => SyntaxErrorView::Lexer(a@, *r, *c),
            SyntaxError::NotPrintable => SyntaxErrorView::NotPrintable,
            SyntaxError::NoMoreTokens(r, c) => SyntaxErrorView::NoMoreTokens(*r, *c),
            SyntaxError::BreakFromExprTree => SyntaxErrorView::BreakFromExprTree,
        }
    }
}

/// ` at r:<row>,c:<column>`.
pub open spec fn at_text(r: u16, c: u16) -> Seq<char> {
    " at r:"@ + nat_decimal(r as nat) + ",c:"@ + nat_decimal(c as nat)
}

/// The text a syntax error is shown as.
pub open spec fn syntax_error_text(e: SyntaxErrorView) -> Seq<char> {
    match e {
        SyntaxErrorView::Expected(a, b, r, c) => "Expected `"@ + a + "` got `"@ + b + "`"@ + at_text(r, c),
        SyntaxErrorView::Unexpected(a, r, c) => "Unexpected `"@ + a + "`"@ + at_text(r, c),
        SyntaxErrorView::Lexer(a, r, c) => "Lexing error `"@ + a + "`"@ + at_text(r, c),
        SyntaxErrorView::NotPrintable => "Cannot print literal"@,
        SyntaxErrorView::NoMoreTokens(r, c) => "No more tokens left"@ + at_text(r, c),
        SyntaxErrorView::BreakFromExprTree => "Breaking from expression tree"@,
    }
}

fn push_str(out: &mut Vec<char>, s: &str)
    ensures
        final(out)@ == old(out)@ + s@,
{
    let c = str_chars(s);
    push_chars(out, c.as_slice());
}

fn push_at(out: &mut Vec<char>, r: u16, c: u16)
    ensures
        final(out)@ == old(out)@ + at_text(r, c),
{
    let ghost before = out@;
    push_str(out, " at r:");
    push_u64_decimal(out, r as u64);
    push_str(out, ",c:");
    push_u64_decimal(out, c as u64);
    assert(out@ =~= before + at_text(r, c));
}

impl SyntaxError {
    /// The text this error is shown as.
    pub fn message(&self) -> (s: String)
        ensures
            s@ == syntax_error_text(self@),
    {
        let mut out: Vec<char> = Vec::new();
        match self {
            SyntaxError::Expected(a, b, r, c) => {
                push_str(&mut out, "Expected `");
                push_str(&mut out, a.as_str());
                push_str(&mut out, "` got `");
                push_str(&mut out, b.as_str());
                push_str(&mut out, "`");
                push_at(&mut out, *r, *c);
                assert(out@ =~= syntax_error_text(self@));
            },
            SyntaxError::Unexpected(a, r, c) => {
                push_str(&mut out, "Unexpected `");
                push_str(&mut out, a.as_str());
                push_str(&mut out, "`");
                push_at(&mut out, *r, *c);
                assert(out@ =~= syntax_error_text(self@));
            },
            SyntaxError::Lexer(a, r, c) => {
                push_str(&mut out, "Lexing error `");
                push_str(&mut out, a.as_str());
                push_str(&mut out, "`");
                push_at(&mut out, *r, *c);
                assert(out@ =~= syntax_error_text(self@));
            },
            SyntaxError::NotPrintable => {
                push_str(&mut out, "Cannot print literal");
                assert(out@ =~= syntax_error_text(self@));
            },
            SyntaxError::NoMoreTokens(r, c) => {
                push_str(&mut out, "No more tokens left");
                push_at(&mut out, *r, *c);
                assert(out@ =~= syntax_error_text(self@));
            },
            SyntaxError::BreakFromExprTree => {
                push_str(&mut out, "Breaking from expression tree");
                assert(out@ =~= syntax_error_text(self@));
            },
        }
        string_from_chars(out.as_slice())
    }
}

} // verus!
