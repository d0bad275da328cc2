//! Errors reported by the interpreter, each with the kind of fault and its message.
use vstd::prelude::*;

use crate::text::{int_decimal, nat_decimal, push_chars, push_i64_decimal, push_u64_decimal, str_chars, string_from_chars};

verus! {

/// The kind of fault behind a [`RuntimeError`].
#[derive(Debug, Clone, PartialEq)]
pub enum RuntimeErrorKind {
    InvalidTapeWrite { index: i64, next_valid: i64 },
    DougIndexOverflow { count: usize },
    DivisionByZero,
    ModuloByZero,
    BreakOutsideLoop,
    Ffi(String),
}

/// A fault met while running a program, with the message shown for it.
#[derive(Debug, Clone, PartialEq)]
pub struct RuntimeError {
    pub kind: RuntimeErrorKind,
    pub message: String,
}

impl RuntimeError {
    /// A fault raised by a foreign call, with its message.
    pub fn new(msg: &str) -> (e: Self)
        ensures
            e.kind matches RuntimeErrorKind::Ffi(m) && m@ == msg@,
            e.message@ == msg@,
    {
        let a = str_chars(msg);
        RuntimeError {
            kind: RuntimeErrorKind::Ffi(string_from_chars(a.as_slice())),
            message: string_from_chars(a.as_slice()),
        }
    }

    /// A write to a tape cell that cannot be written.
    pub fn invalid_tape_write(index: i64, next_valid: i64) -> (e: Self)
        ensures
            e.kind == (RuntimeErrorKind::InvalidTapeWrite { index, next_valid }),
            e.message@ == "invalid tape write at index "@ + int_decimal(index as int)
                + "; next writable index is "@ + int_decimal(next_valid as int),
    {
        let mut out = str_chars("invalid tape write at index ");
        push_i64_decimal(&mut out, index);
        let mid = str_chars("; next writable index is ");
        push_chars(&mut out, mid.as_slice());
        push_i64_decimal(&mut out, next_valid);
        RuntimeError {
            kind: RuntimeErrorKind::InvalidTapeWrite { index, next_valid },
            message: string_from_chars(out.as_slice()),
        }
    }

    /// A Doug chain too long to be turned into a tape index.
    pub fn doug_index_overflow(count: usize) -> (e: Self)
        ensures
            e.kind == (RuntimeErrorKind::DougIndexOverflow { count }),
            e.message@ == "Doug chain of length "@ + nat_decimal(count as nat)
                + " is too large to index safely"@,
    {
        let mut out = str_chars("Doug chain of length ");
        push_u64_decimal(&mut out, count as u64);
        let tail = str_chars(" is too large to index safely");
        push_chars(&mut out, tail.as_slice());
        RuntimeError {
            kind: RuntimeErrorKind::DougIndexOverflow { count },
            message: string_from_chars(out.as_slice()),
        }
    }

    /// A division by zero.
    pub fn division_by_zero() -> (e: Self)
        ensures
            e.kind == RuntimeErrorKind::DivisionByZero,
            e.message@ == "division by zero"@,
    {
        let a = str_chars("division by zero");
        RuntimeError { kind: RuntimeErrorKind::DivisionByZero, message: string_from_chars(a.as_slice()) }
    }

    /// A remainder by zero.
    pub fn modulo_by_zero() -> (e: Self)
        ensures
            e.kind == RuntimeErrorKind::ModuloByZero,
            e.message@ == "modulo by zero"@,
    {
        let a = str_chars("modulo by zero");
        RuntimeError { kind: RuntimeErrorKind::ModuloByZero, message: string_from_chars(a.as_slice()) }
    }

    /// The text the error is shown as: its message.
    pub fn text(&self) -> (s: String)
        ensures
            s@ == self.message@,
    {
        let a = str_chars(self.message.as_str());
        string_from_chars(a.as_slice())
    }

    /// A `guoD` met outside any loop.
    pub fn break_outside_loop() -> (e: Self)
        ensures
            e.kind == RuntimeErrorKind::BreakOutsideLoop,
            e.message@ == "guoD can only be used inside loop"@,
    {
        let a = str_chars("guoD can only be used inside loop");
        RuntimeError {
            kind: RuntimeErrorKind::BreakOutsideLoop,
            message: string_from_chars(a.as_slice()),
        }
    }
}

} // verus!
