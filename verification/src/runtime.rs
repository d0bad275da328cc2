//! Runtime error values, the FFI calling convention and the text format of the speech state.
use vstd::prelude::*;

use crate::text::{
    char_is_whitespace, contains_chars, contains_seq, has_prefix_at, int_decimal,
    is_unicode_whitespace, nat_decimal, push_chars, push_i64_decimal, push_u64_decimal,
    starts_with, str_chars, str_eq, string_from_chars,
};

verus! {

pub const RUNTIME_ERROR_DIVISION_BY_ZERO: &'static str = "division by zero";

pub const RUNTIME_ERROR_MODULO_BY_ZERO: &'static str = "modulo by zero";

pub const RUNTIME_ERROR_BREAK_OUTSIDE_LOOP: &'static str = "guoD can only be used inside loop";

pub const RUNTIME_ERROR_INTEGER_OVERFLOW_MODULO: &'static str = "integer overflow during modulo";

pub const TTS_STATE_TEXT_KEY: &'static str = "TEXT";

pub const TTS_STATE_AMP_KEY: &'static str = "AMP";

pub const TTS_STATE_SPEAKING_KEY: &'static str = "SPEAKING";

pub const TTS_STATE_DONE_MARKER: &'static str = "__DOUGLANG_DONE__";

/// The message for a Doug chain too long to be turned into a tape index.
pub fn doug_index_overflow_message(count: usize) -> (s: String)
    ensures
        s@ == "Doug chain of length "@ + nat_decimal(count as nat)
            + " is too large to index safely"@,
{
    let mut out = str_chars("Doug chain of length ");
    push_u64_decimal(&mut out, count as u64);
    let tail = str_chars(" is too large to index safely");
    push_chars(&mut out, tail.as_slice());
    string_from_chars(out.as_slice())
}

/// Errors raised while a program runs.
#[derive(Debug, Clone, PartialEq, PartialOrd)]
pub enum RuntimeError {
    OutOfRange(i32),
    TapeOverFlow,
    NotDefined(String),
    NoRExpression(String),
    BadExpression(String, String, String),
    AllocError(String),
    SyntaxError(String),
    SegmentationFault,
    Unexpected(String),
    NotAFunction,
}

/// The text a runtime error is shown as.
pub open spec fn runtime_error_text(e: RuntimeError) -> Seq<char> {
    match e {
        RuntimeError::OutOfRange(v) => "Value "@ + int_decimal(v as int) + " is out of range of Tape"@,
        RuntimeError::TapeOverFlow => "Stack overflow :3"@,
        RuntimeError::NotDefined(s) => s@ + " is not defined"@,
        RuntimeError::NoRExpression(s) => "Expression "@ + s@
            + " requires both a left and right value"@,
        RuntimeError::BadExpression(a, b, c) => "Could not evaluate expression "@ + a@ + " "@ + b@
            + " "@ + c@,
        RuntimeError::AllocError(s) => "Allocation error: "@ + s@,
        RuntimeError::SyntaxError(s) => "Syntax error: "@ + s@,
        RuntimeError::SegmentationFault => "Value is nil"@,
        RuntimeError::Unexpected(s) => s@,
        RuntimeError::NotAFunction => "Attempting to call what is not a function"@,
    }
}

impl RuntimeError {
    /// An unexpected runtime error with the given text.
    pub fn new(err: String) -> (e: Self)
        ensures
            e == RuntimeError::Unexpected(err),
    {
        RuntimeError::Unexpected(err)
    }

    /// The text this error is shown as.
    pub fn message(&self) -> (s: String)
        ensures
            s@ == runtime_error_text(*self),
    {
        let mut out: Vec<char> = Vec::new();
        match self {
            RuntimeError::OutOfRange(v) => {
                let a = str_chars("Value ");
                push_chars(&mut out, a.as_slice());
                push_i64_decimal(&mut out, *v as i64);
                let b = str_chars(" is out of range of Tape");
                push_chars(&mut out, b.as_slice());
            },
            RuntimeError::TapeOverFlow => {
                let a = str_chars("Stack overflow :3");
                push_chars(&mut out, a.as_slice());
            },
            RuntimeError::NotDefined(s) => {
                let a = str_chars(s.as_str());
                push_chars(&mut out, a.as_slice());
                let b = str_chars(" is not defined");
                push_chars(&mut out, b.as_slice());
            },
            RuntimeError::NoRExpression(s) => {
                let a = str_chars("Expression ");
                push_chars(&mut out, a.as_slice());
                let b = str_chars(s.as_str());
                push_chars(&mut out, b.as_slice());
                let c = str_chars(" requires both a left and right value");
                push_chars(&mut out, c.as_slice());
            },
            RuntimeError::BadExpression(x, y, z) => {
                let a = str_chars("Could not evaluate expression ");
                push_chars(&mut out, a.as_slice());
                let b = str_chars(x.as_str());
                push_chars(&mut out, b.as_slice());
                let sp = str_chars(" ");
                push_chars(&mut out, sp.as_slice());
                let c = str_chars(y.as_str());
                push_chars(&mut out, c.as_slice());
                push_chars(&mut out, sp.as_slice());
                let d = str_chars(z.as_str());
                push_chars(&mut out, d.as_slice());
            },
            RuntimeError::AllocError(s) => {
                let a = str_chars("Allocation error: ");
                push_chars(&mut out, a.as_slice());
                let b = str_chars(s.as_str());
                push_chars(&mut out, b.as_slice());
            },
            RuntimeError::SyntaxError(s) => {
                let a = str_chars("Syntax error: ");
                push_chars(&mut out, a.as_slice());
                let b = str_chars(s.as_str());
                push_chars(&mut out, b.as_slice());
            },
            RuntimeError::SegmentationFault => {
                let a = str_chars("Value is nil");
                push_chars(&mut out, a.as_slice());
            },
            RuntimeError::Unexpected(s) => {
                let a = str_chars(s.as_str());
                push_chars(&mut out, a.as_slice());
            },
            RuntimeError::NotAFunction => {
                let a = str_chars("Attempting to call what is not a function");
                push_chars(&mut out, a.as_slice());
            },
        }
        string_from_chars(out.as_slice())
    }
}

/// How an argument is handed to a foreign function.
#[derive(Debug, Clone, Copy, PartialEq, Eq)]
pub enum FfiArgKind {
    Double,
    String,
    UInt,
}

/// How a foreign function's result is read back.
#[derive(Debug, Clone, Copy, PartialEq, Eq)]
pub enum FfiReturnKind {
    Double,
    Int,
    UInt,
}

/// The calling convention used for one foreign call.
#[derive(Debug, Clone, PartialEq, Eq)]
pub struct FfiSignature {
    pub return_kind: FfiReturnKind,
    pub arg_kinds: Vec<FfiArgKind>,
}

/// The return kind and the (uniform) argument kind assumed for a foreign function.
pub open spec fn ffi_kinds(func_name: Seq<char>) -> (FfiReturnKind, FfiArgKind) {
    if func_name == "puts"@ || func_name == "fputs"@ {
        (FfiReturnKind::Int, FfiArgKind::String)
    } else if func_name == "sleep"@ || func_name == "Sleep"@ {
        (FfiReturnKind::UInt, FfiArgKind::UInt)
    } else {
        (FfiReturnKind::Double, FfiArgKind::Double)
    }
}

/// The calling convention for `func_name` applied to `arg_count` arguments.
pub fn ffi_signature(func_name: &str, arg_count: usize) -> (sig: FfiSignature)
    ensures
        sig.return_kind == ffi_kinds(func_name@).0,
        sig.arg_kinds@ == Seq::new(arg_count as nat, |_i: int| ffi_kinds(func_name@).1),
{
    let (return_kind, arg_kind) = if str_eq(func_name, "puts") || str_eq(func_name, "fputs") {
        (FfiReturnKind::Int, FfiArgKind::String)
    } else if str_eq(func_name, "sleep") || str_eq(func_name, "Sleep") {
        (FfiReturnKind::UInt, FfiArgKind::UInt)
    } else {
        (FfiReturnKind::Double, FfiArgKind::Double)
    };
    let mut arg_kinds: Vec<FfiArgKind> = Vec::new();
    let mut i: usize = 0;
    while i < arg_count
        invariant
            i <= arg_count,
            arg_kinds@ == Seq::new(i as nat, |_i: int| arg_kind),
        decreases arg_count - i,
    {
        arg_kinds.push(arg_kind);
        i = i + 1;
        assert(arg_kinds@ =~= Seq::new(i as nat, |_i: int| arg_kind));
    }
    FfiSignature { return_kind, arg_kinds }
}


/// The escaped form of one character of speech-state text.
pub open spec fn escape_char(c: char) -> Seq<char> {
    if c == '\\' {
        seq!['\\', '\\']
    } else if c == '\n' {
        seq!['\\', 'n']
    } else if c == '|' {
        seq!['\\', 'p']
    } else {
        seq![c]
    }
}

/// Speech-state text with backslashes doubled, newlines written `\n` and bars written `\p`.
pub open spec fn escaped(s: Seq<char>) -> Seq<char>
    decreases s.len(),
{
    if s.len() == 0 {
        seq![]
    } else {
        escape_char(s[0]) + escaped(s.skip(1))
    }
}

/// The character that an escape `\x` stands for, or both characters where `x` names none.
pub open spec fn unescape_pair(x: char) -> Seq<char> {
    if x == 'p' {
        seq!['|']
    } else if x == 'n' {
        seq!['\n']
    } else if x == '\\' {
        seq!['\\']
    } else {
        seq!['\\', x]
    }
}

/// Speech-state text with its escapes resolved; a lone trailing backslash stays.
pub open spec fn unescaped(s: Seq<char>) -> Seq<char>
    decreases s.len(),
{
    if s.len() == 0 {
        seq![]
    } else if s[0] == '\\' {
        if s.len() == 1 {
            seq!['\\']
        } else {
            unescape_pair(s[1]) + unescaped(s.skip(2))
        }
    } else {
        seq![s[0]] + unescaped(s.skip(1))
    }
}

proof fn lemma_escaped_skip(s: Seq<char>, i: int)
    requires
        0 <= i < s.len(),
    ensures
        escaped(s.skip(i)) == escape_char(s[i]) + escaped(s.skip(i + 1)),
{
    assert(s.skip(i).skip(1) =~= s.skip(i + 1));
}

/// Escapes text so that it fits on one line of the speech-state format.
pub fn escape_tts_state_text(text: &str) -> (out: String)
    ensures
        out@ == escaped(text@),
{
    let chars = str_chars(text);
    let ghost s = chars@;
    let mut out: Vec<char> = Vec::new();
    let mut i: usize = 0;
    assert(s.skip(0) =~= s);
    while i < chars.len()
        invariant
            i <= s.len(),
            s == chars@,
            out@ + escaped(s.skip(i as int)) == escaped(s),
        decreases s.len() - i,
    {
        let c = chars[i];
        proof {
            lemma_escaped_skip(s, i as int);
        }
        if c == '\\' {
            out.push('\\');
            out.push('\\');
        } else if c == '\n' {
            out.push('\\');
            out.push('n');
        } else if c == '|' {
            out.push('\\');
            out.push('p');
        } else {
            out.push(c);
        }
        assert(out@ + escaped(s.skip(i + 1)) =~= escaped(s));
        i = i + 1;
    }
    assert(s.skip(i as int) =~= Seq::<char>::empty());
    assert(out@ =~= escaped(s));
    string_from_chars(out.as_slice())
}

/// Resolves the escapes written by [`escape_tts_state_text`].
pub fn unescape_tts_state_text(text: &str) -> (out: String)
    ensures
        out@ == unescaped(text@),
{
    let chars = str_chars(text);
    let ghost s = chars@;
    let mut out: Vec<char> = Vec::new();
    let mut i: usize = 0;
    assert(s.skip(0) =~= s);
    while i < chars.len()
        invariant
            i <= s.len(),
            s == chars@,
            out@ + unescaped(s.skip(i as int)) == unescaped(s),
        decreases s.len() - i,
    {
        let c = chars[i];
        let ghost t = s.skip(i as int);
        if c == '\\' {
            if i + 1 < chars.len() {
                let x = chars[i + 1];
                if x == 'p' {
                    out.push('|');
                } else if x == 'n' {
                    out.push('\n');
                } else if x == '\\' {
                    out.push('\\');
                } else {
                    out.push('\\');
                    out.push(x);
                }
                assert(t.skip(2) =~= s.skip(i + 2));
                assert(out@ + unescaped(s.skip(i + 2)) =~= unescaped(s));
                i = i + 2;
            } else {
                out.push('\\');
                assert(s.skip(i + 1) =~= Seq::<char>::empty());
                assert(out@ + unescaped(s.skip(i + 1)) =~= unescaped(s));
                i = i + 1;
            }
        } else {
            out.push(c);
            assert(t.skip(1) =~= s.skip(i + 1));
            assert(out@ + unescaped(s.skip(i + 1)) =~= unescaped(s));
            i = i + 1;
        }
    }
    assert(s.skip(i as int) =~= Seq::<char>::empty());
    assert(out@ =~= unescaped(s));
    string_from_chars(out.as_slice())
}

/// Unescaping what escaping wrote gives back the original text.
pub proof fn lemma_unescape_escape(s: Seq<char>)
    ensures
        unescaped(escaped(s)) == s,
    decreases s.len(),
{
    if s.len() > 0 {
        lemma_unescape_escape(s.skip(1));
        let e = escape_char(s[0]);
        let r = escaped(s.skip(1));
        if e.len() == 2 {
            assert((e + r)[0] == '\\');
            assert((e + r)[1] == e[1]);
            assert((e + r).skip(2) =~= r);
        } else {
            assert((e + r).skip(1) =~= r);
        }
        assert(seq![s[0]] + s.skip(1) =~= s);
    }
}


/// The state of the speech engine as exchanged through the state file.
///
/// `amplitude` holds the decimal text of the amplitude as written in the file; it is
/// `None` where the file has no amplitude line.
#[derive(Debug, Clone, PartialEq)]
pub struct TtsState {
    pub text: String,
    pub amplitude: Option<String>,
    pub speaking: bool,
}

/// The mathematical content of a [`TtsState`].
pub struct TtsStateView {
    pub text: Seq<char>,
    pub amplitude: Option<Seq<char>>,
    pub speaking: bool,
}

impl View for TtsState {
    type V = TtsStateView;

    open spec fn view(&self) -> TtsStateView {
        TtsStateView {
            text: self.text@,
            amplitude: match self.amplitude {
                Some(a) => Some(a@),
                None => None,
            },
            speaking: self.speaking,
        }
    }
}

pub open spec fn text_line_prefix() -> Seq<char> {
    seq!['T', 'E', 'X', 'T', '|']
}

pub open spec fn amp_line_prefix() -> Seq<char> {
    seq!['A', 'M', 'P', '|']
}

pub open spec fn speaking_line_prefix() -> Seq<char> {
    seq!['S', 'P', 'E', 'A', 'K', 'I', 'N', 'G', '|']
}

pub open spec fn done_marker() -> Seq<char> {
    seq!['_', '_', 'D', 'O', 'U', 'G', 'L', 'A', 'N', 'G', '_', 'D', 'O', 'N', 'E', '_', '_']
}

/// The state file's text for the given text, amplitude text and speaking flag.
pub open spec fn formatted_tts_state(text: Seq<char>, amplitude: Seq<char>, speaking: bool) -> Seq<
    char,
> {
    text_line_prefix() + escaped(text) + seq!['\n'] + amp_line_prefix() + amplitude + seq!['\n']
        + speaking_line_prefix() + (if speaking { seq!['1'] } else { seq!['0'] }) + seq!['\n']
}

/// Writes the state file's text: a text line, an amplitude line and a speaking line.
pub fn format_tts_state(text: &str, amplitude: &str, speaking: bool) -> (s: String)
    ensures
        s@ == formatted_tts_state(text@, amplitude@, speaking),
{
    let mut out = str_chars("TEXT|");
    proof {
        reveal_strlit("TEXT|");
    }
    assert(out@ == text_line_prefix());
    let esc = escape_tts_state_text(text);
    let esc_chars = str_chars(esc.as_str());
    push_chars(&mut out, esc_chars.as_slice());
    out.push('\n');
    let amp_key = str_chars("AMP|");
    proof {
        reveal_strlit("AMP|");
    }
    push_chars(&mut out, amp_key.as_slice());
    let amp = str_chars(amplitude);
    push_chars(&mut out, amp.as_slice());
    out.push('\n');
    let sp_key = str_chars("SPEAKING|");
    proof {
        reveal_strlit("SPEAKING|");
    }
    push_chars(&mut out, sp_key.as_slice());
    out.push(if speaking { '1' } else { '0' });
    out.push('\n');
    assert(out@ =~= formatted_tts_state(text@, amplitude@, speaking));
    string_from_chars(out.as_slice())
}

/// `s` without its leading Unicode whitespace.
pub open spec fn trim_start(s: Seq<char>) -> Seq<char>
    decreases s.len(),
{
    if s.len() > 0 && is_unicode_whitespace(s[0]) {
        trim_start(s.skip(1))
    } else {
        s
    }
}

/// `s` without its trailing Unicode whitespace.
pub open spec fn trim_end(s: Seq<char>) -> Seq<char>
    decreases s.len(),
{
    if s.len() > 0 && is_unicode_whitespace(s.last()) {
        trim_end(s.drop_last())
    } else {
        s
    }
}

/// `s` without leading and trailing Unicode whitespace.
pub open spec fn trim(s: Seq<char>) -> Seq<char> {
    trim_end(trim_start(s))
}

/// The number of characters before the first newline of `s` (its length if it has none).
pub open spec fn first_line_len(s: Seq<char>) -> nat
    decreases s.len(),
{
    if s.len() == 0 || s[0] == '\n' {
        0
    } else {
        1 + first_line_len(s.skip(1))
    }
}

/// A line without the carriage return that ended it.
pub open spec fn strip_cr(line: Seq<char>) -> Seq<char> {
    if line.len() > 0 && line.last() == '\r' {
        line.drop_last()
    } else {
        line
    }
}

/// The lines of `s`: split at each newline, a carriage return before a newline dropped,
/// and no empty line after a final newline.
pub open spec fn lines_of(s: Seq<char>) -> Seq<Seq<char>>
    decreases s.len(),
{
    if s.len() == 0 {
        seq![]
    } else {
        let k = first_line_len(s);
        if k >= s.len() {
            seq![s]
        } else {
            seq![strip_cr(s.take(k as int))] + lines_of(s.skip(k + 1 as int))
        }
    }
}

/// The state after reading one line of the state file.
pub open spec fn apply_state_line(st: TtsStateView, line: Seq<char>) -> TtsStateView {
    if starts_with(line, text_line_prefix()) {
        TtsStateView { text: unescaped(line.skip(5)), ..st }
    } else if starts_with(line, amp_line_prefix()) {
        TtsStateView { amplitude: Some(line.skip(4)), ..st }
    } else if starts_with(line, speaking_line_prefix()) {
        TtsStateView { speaking: line.skip(9) == seq!['1'], ..st }
    } else {
        st
    }
}

/// The state after reading the given lines in order.
pub open spec fn apply_state_lines(st: TtsStateView, lines: Seq<Seq<char>>) -> TtsStateView
    decreases lines.len(),
{
    if lines.len() == 0 {
        st
    } else {
        apply_state_lines(apply_state_line(st, lines[0]), lines.skip(1))
    }
}

pub open spec fn idle_state_view() -> TtsStateView {
    TtsStateView { text: seq![], amplitude: None, speaking: false }
}

/// What the state file's text says: nothing once the done marker is written; the whole
/// text as idle speech where there is no text line; else the state its lines describe.
pub open spec fn parsed_tts_state(raw: Seq<char>) -> Option<TtsStateView> {
    if trim(raw) == done_marker() {
        None
    } else if !contains_seq(raw, text_line_prefix()) {
        Some(TtsStateView { text: raw, amplitude: None, speaking: false })
    } else {
        Some(apply_state_lines(idle_state_view(), lines_of(raw)))
    }
}

proof fn lemma_trim_start_skip(s: Seq<char>, a: int)
    requires
        0 <= a <= s.len(),
        forall|j: int| 0 <= j < a ==> is_unicode_whitespace(s[j]),
        a == s.len() || !is_unicode_whitespace(s[a]),
    ensures
        trim_start(s) == s.skip(a),
    decreases a,
{
    if a == 0 {
        assert(s.skip(0) =~= s);
    } else {
        lemma_trim_start_skip(s.skip(1), a - 1);
        assert(s.skip(1).skip(a - 1) =~= s.skip(a));
    }
}

proof fn lemma_trim_end_take(s: Seq<char>, b: int)
    requires
        0 <= b <= s.len(),
        forall|j: int| b <= j < s.len() ==> is_unicode_whitespace(s[j]),
        b == 0 || !is_unicode_whitespace(s[b - 1]),
    ensures
        trim_end(s) == s.take(b),
    decreases s.len() - b,
{
    if b == s.len() {
        assert(s.take(b) =~= s);
    } else {
        lemma_trim_end_take(s.drop_last(), b);
        assert(s.drop_last().take(b) =~= s.take(b));
    }
}

proof fn lemma_first_line_len(s: Seq<char>, m: int)
    requires
        0 <= m <= s.len(),
        forall|j: int| 0 <= j < m ==> s[j] != '\n',
        m == s.len() || s[m] == '\n',
    ensures
        first_line_len(s) == m,
    decreases m,
{
    if m > 0 {
        lemma_first_line_len(s.skip(1), m - 1);
    }
}

fn trimmed_is_done_marker(chars: &[char]) -> (r: bool)
    ensures
        r == (trim(chars@) == done_marker()),
{
    let ghost s = chars@;
    let mut a: usize = 0;
    while a < chars.len() && char_is_whitespace(chars[a])
        invariant
            s == chars@,
            a <= chars.len(),
            forall|j: int| 0 <= j < a ==> is_unicode_whitespace(s[j]),
        decreases chars.len() - a,
    {
        a = a + 1;
    }
    proof {
        lemma_trim_start_skip(s, a as int);
    }
    let mut b: usize = chars.len();
    while b > a && char_is_whitespace(chars[b - 1])
        invariant
            s == chars@,
            a <= b <= chars.len(),
            forall|j: int| b <= j < s.len() ==> is_unicode_whitespace(s[j]),
        decreases b,
    {
        b = b - 1;
    }
    proof {
        let t = s.skip(a as int);
        lemma_trim_end_take(t, b - a);
        assert(t.take(b - a) =~= s.subrange(a as int, b as int));
    }
    let marker = str_chars("__DOUGLANG_DONE__");
    proof {
        reveal_strlit("__DOUGLANG_DONE__");
    }
    assert(marker@ == done_marker());
    let r = (b - a) == marker.len() && has_prefix_at(chars, a, b, marker.as_slice());
    proof {
        let t = s.subrange(a as int, b as int);
        if (b - a) == marker.len() {
            assert(t.take(marker.len() as int) =~= t);
        }
    }
    r
}

fn copy_range(chars: &[char], from: usize, to: usize) -> (v: Vec<char>)
    requires
        from <= to <= chars.len(),
    ensures
        v@ == chars@.subrange(from as int, to as int),
{
    let mut v: Vec<char> = Vec::new();
    let mut k: usize = from;
    while k < to
        invariant
            from <= k <= to <= chars.len(),
            v@ == chars@.subrange(from as int, k as int),
        decreases to - k,
    {
        v.push(chars[k]);
        k = k + 1;
        assert(v@ =~= chars@.subrange(from as int, k as int));
    }
    v
}

/// Applies the line `chars[start..end]` of a state file to `st`.
fn read_state_line(st: &mut TtsState, chars: &[char], start: usize, end: usize)
    requires
        start <= end <= chars.len(),
    ensures
        final(st)@ == apply_state_line(old(st)@, chars@.subrange(start as int, end as int)),
{
    let ghost line = chars@.subrange(start as int, end as int);
    let text_key = str_chars("TEXT|");
    let amp_key = str_chars("AMP|");
    let sp_key = str_chars("SPEAKING|");
    proof {
        reveal_strlit("TEXT|");
        reveal_strlit("AMP|");
        reveal_strlit("SPEAKING|");
    }
    assert(text_key@ == text_line_prefix());
    assert(amp_key@ == amp_line_prefix());
    assert(sp_key@ == speaking_line_prefix());
    if has_prefix_at(chars, start, end, text_key.as_slice()) {
        let rest = copy_range(chars, start + 5, end);
        assert(rest@ =~= line.skip(5));
        let rest_s = string_from_chars(rest.as_slice());
        st.text = unescape_tts_state_text(rest_s.as_str());
    } else if has_prefix_at(chars, start, end, amp_key.as_slice()) {
        let rest = copy_range(chars, start + 4, end);
        assert(rest@ =~= line.skip(4));
        st.amplitude = Some(string_from_chars(rest.as_slice()));
    } else if has_prefix_at(chars, start, end, sp_key.as_slice()) {
        let is_one = end - start == 10 && chars[start + 9] == '1';
        proof {
            if end - start == 10 {
                if chars@[start + 9] == '1' {
                    assert(line.skip(9) =~= seq!['1']);
                } else {
                    assert(line.skip(9)[0] != seq!['1'][0]);
                }
            } else {
                assert(line.skip(9).len() != 1);
            }
        }
        st.speaking = is_one;
    }
}

/// Reads the state file's text.
#[verifier::rlimit(30)]
pub fn parse_tts_state(raw: &str) -> (r: Option<TtsState>)
    ensures
        r is Some == parsed_tts_state(raw@) is Some,
        r is Some ==> r->0@ == parsed_tts_state(raw@)->0,
{
    let chars = str_chars(raw);
    let ghost s = chars@;
    if trimmed_is_done_marker(chars.as_slice()) {
        return None;
    }
    let text_key = str_chars("TEXT|");
    proof {
        reveal_strlit("TEXT|");
    }
    assert(text_key@ == text_line_prefix());
    if !contains_chars(chars.as_slice(), text_key.as_slice()) {
        return Some(
            TtsState { text: string_from_chars(chars.as_slice()), amplitude: None, speaking: false },
        );
    }
    let mut st = TtsState { text: String::new(), amplitude: None, speaking: false };
    assert(st@ == idle_state_view());
    let mut pos: usize = 0;
    assert(s.skip(0) =~= s);
    while pos < chars.len()
        invariant
            s == chars@,
            pos <= s.len(),
            apply_state_lines(st@, lines_of(s.skip(pos as int))) == apply_state_lines(
                idle_state_view(),
                lines_of(s),
            ),
        decreases s.len() - pos,
    {
        let ghost t = s.skip(pos as int);
        let mut end: usize = pos;
        while end < chars.len() && chars[end] != '\n'
            invariant
                s == chars@,
                pos <= end <= s.len(),
                forall|j: int| pos <= j < end ==> s[j] != '\n',
            decreases s.len() - end,
        {
            end = end + 1;
        }
        proof {
            lemma_first_line_len(t, end - pos);
        }
        let next: usize = if end < chars.len() { end + 1 } else { end };
        let line_end: usize = if end < chars.len() && end > pos && chars[end - 1] == '\r' {
            end - 1
        } else {
            end
        };
        let ghost line = s.subrange(pos as int, line_end as int);
        proof {
            if end < s.len() {
                assert(t.take((end - pos) as int) =~= s.subrange(pos as int, end as int));
                assert(line =~= strip_cr(s.subrange(pos as int, end as int)));
                assert(t.skip(end - pos + 1) =~= s.skip(next as int));
            } else {
                assert(t =~= line);
                assert(s.skip(next as int) =~= Seq::<char>::empty());
            }
            assert(lines_of(t) =~= seq![line] + lines_of(s.skip(next as int)));
            assert((seq![line] + lines_of(s.skip(next as int))).skip(1) =~= lines_of(
                s.skip(next as int),
            ));
        }
        read_state_line(&mut st, chars.as_slice(), pos, line_end);
        pos = next;
    }
    assert(s.skip(pos as int) =~= Seq::<char>::empty());
    Some(st)
}


proof fn lemma_escaped_no_newline(s: Seq<char>)
    ensures
        forall|i: int| 0 <= i < escaped(s).len() ==> escaped(s)[i] != '\n',
    decreases s.len(),
{
    if s.len() > 0 {
        lemma_escaped_no_newline(s.skip(1));
        let e = escape_char(s[0]);
        let r = escaped(s.skip(1));
        assert forall|i: int| 0 <= i < (e + r).len() implies (e + r)[i] != '\n' by {
            if i >= e.len() {
                assert((e + r)[i] == r[i - e.len()]);
            }
        }
    }
}

proof fn lemma_escaped_last(s: Seq<char>)
    requires
        !(s.len() > 0 && s.last() == '\r'),
    ensures
        !(escaped(s).len() > 0 && escaped(s).last() == '\r'),
    decreases s.len(),
{
    if s.len() > 0 {
        let e = escape_char(s[0]);
        let r = escaped(s.skip(1));
        if s.len() == 1 {
            assert(s.skip(1).len() == 0);
            assert(r.len() == 0);
            assert(e + r =~= e);
        } else {
            assert(s.skip(1).last() == s.last());
            lemma_escaped_last(s.skip(1));
            lemma_escaped_nonempty(s.skip(1));
            assert((e + r).last() == r.last());
        }
    }
}

proof fn lemma_escaped_nonempty(s: Seq<char>)
    ensures
        s.len() > 0 ==> escaped(s).len() > 0,
{
}

proof fn lemma_trim_end_prefix(s: Seq<char>)
    ensures
        trim_end(s).len() <= s.len(),
        trim_end(s) == s.take(trim_end(s).len() as int),
        s.len() > 0 && !is_unicode_whitespace(s[0]) ==> trim_end(s).len() >= 1,
    decreases s.len(),
{
    if s.len() > 0 && is_unicode_whitespace(s.last()) {
        lemma_trim_end_prefix(s.drop_last());
        let t = trim_end(s.drop_last());
        assert(s.drop_last().take(t.len() as int) =~= s.take(t.len() as int));
        if s.len() > 0 && !is_unicode_whitespace(s[0]) {
            assert(s.drop_last().len() > 0);
        }
    } else {
        assert(s.take(s.len() as int) =~= s);
    }
}

proof fn lemma_format_not_done(text: Seq<char>, amplitude: Seq<char>, speaking: bool)
    ensures
        trim(formatted_tts_state(text, amplitude, speaking)) != done_marker(),
        contains_seq(formatted_tts_state(text, amplitude, speaking), text_line_prefix()),
{
    let f = formatted_tts_state(text, amplitude, speaking);
    assert(f[0] == 'T');
    assert(!is_unicode_whitespace(f[0]));
    assert(trim_start(f) == f);
    lemma_trim_end_prefix(f);
    assert(trim(f)[0] == 'T');
    assert(f.subrange(0int, 0int + text_line_prefix().len()) =~= text_line_prefix());
}

proof fn lemma_line_then_rest(f: Seq<char>, l: Seq<char>, rest: Seq<char>)
    requires
        f == l + seq!['\n'] + rest,
        forall|j: int| 0 <= j < l.len() ==> l[j] != '\n',
        !(l.len() > 0 && l.last() == '\r'),
    ensures
        lines_of(f) == seq![l] + lines_of(rest),
{
    assert forall|j: int| 0 <= j < l.len() implies f[j] != '\n' by {
        assert(f[j] == l[j]);
    }
    lemma_first_line_len(f, l.len() as int);
    assert(f.take(l.len() as int) =~= l);
    assert(f.skip(l.len() + 1 as int) =~= rest);
}

#[verifier::spinoff_prover]
#[verifier::rlimit(40)]
proof fn lemma_format_lines(text: Seq<char>, amplitude: Seq<char>, speaking: bool)
    requires
        !(text.len() > 0 && text.last() == '\r'),
        !(amplitude.len() > 0 && amplitude.last() == '\r'),
        forall|i: int| 0 <= i < amplitude.len() ==> amplitude[i] != '\n',
    ensures
        lines_of(formatted_tts_state(text, amplitude, speaking)) == seq![
            text_line_prefix() + escaped(text),
            amp_line_prefix() + amplitude,
            speaking_line_prefix() + (if speaking { seq!['1'] } else { seq!['0'] }),
        ],
{
    let e = escaped(text);
    let d: Seq<char> = if speaking { seq!['1'] } else { seq!['0'] };
    let l1 = text_line_prefix() + e;
    let l2 = amp_line_prefix() + amplitude;
    let l3 = speaking_line_prefix() + d;
    let f = formatted_tts_state(text, amplitude, speaking);
    lemma_escaped_no_newline(text);
    lemma_escaped_last(text);
    let r3: Seq<char> = Seq::empty();
    let r2 = l3 + seq!['\n'] + r3;
    let r1 = l2 + seq!['\n'] + r2;
    assert(f =~= l1 + seq!['\n'] + r1);
    assert forall|j: int| 0 <= j < l1.len() implies l1[j] != '\n' by {
        if j >= 5 {
            assert(l1[j] == e[j - 5]);
        }
    }
    assert(!(l1.len() > 0 && l1.last() == '\r')) by {
        if e.len() > 0 {
            assert(l1.last() == e.last());
        }
    }
    lemma_line_then_rest(f, l1, r1);
    assert forall|j: int| 0 <= j < l2.len() implies l2[j] != '\n' by {
        if j >= 4 {
            assert(l2[j] == amplitude[j - 4]);
        }
    }
    assert(!(l2.len() > 0 && l2.last() == '\r')) by {
        if amplitude.len() > 0 {
            assert(l2.last() == amplitude.last());
        }
    }
    lemma_line_then_rest(r1, l2, r2);
    lemma_line_then_rest(r2, l3, r3);
    assert(lines_of(r3) =~= Seq::<Seq<char>>::empty());
    assert(lines_of(f) =~= seq![l1, l2, l3]);
}

proof fn lemma_apply_text_line(st: TtsStateView, e: Seq<char>)
    ensures
        apply_state_line(st, text_line_prefix() + e) == (TtsStateView { text: unescaped(e), ..st }),
{
    let l1 = text_line_prefix() + e;
    assert(l1.take(5) =~= text_line_prefix());
    assert(l1.skip(5) =~= e);
}

proof fn lemma_apply_amp_line(st: TtsStateView, a: Seq<char>)
    ensures
        apply_state_line(st, amp_line_prefix() + a) == (TtsStateView { amplitude: Some(a), ..st }),
{
    let l2 = amp_line_prefix() + a;
    assert(!starts_with(l2, text_line_prefix())) by {
        if 5 <= l2.len() {
            assert(l2.take(5)[0] == 'A');
        }
    }
    assert(l2.take(4) =~= amp_line_prefix());
    assert(l2.skip(4) =~= a);
}

proof fn lemma_apply_speaking_line(st: TtsStateView, speaking: bool)
    ensures
        apply_state_line(
            st,
            speaking_line_prefix() + (if speaking { seq!['1'] } else { seq!['0'] }),
        ) == (TtsStateView { speaking, ..st }),
{
    let d: Seq<char> = if speaking { seq!['1'] } else { seq!['0'] };
    let l3 = speaking_line_prefix() + d;
    assert(!starts_with(l3, text_line_prefix())) by {
        assert(l3.take(5)[0] == 'S');
    }
    assert(!starts_with(l3, amp_line_prefix())) by {
        assert(l3.take(4)[0] == 'S');
    }
    assert(l3.take(9) =~= speaking_line_prefix());
    assert(l3.skip(9) =~= d);
    if !speaking {
        assert(d[0] != seq!['1'][0]);
    }
}

proof fn lemma_apply_three(st: TtsStateView, l1: Seq<char>, l2: Seq<char>, l3: Seq<char>)
    ensures
        apply_state_lines(st, seq![l1, l2, l3]) == apply_state_line(
            apply_state_line(apply_state_line(st, l1), l2),
            l3,
        ),
{
    let ls = seq![l1, l2, l3];
    assert(ls.skip(1) =~= seq![l2, l3]);
    assert(seq![l2, l3].skip(1) =~= seq![l3]);
    assert(seq![l3].skip(1) =~= Seq::<Seq<char>>::empty());
    let s1 = apply_state_line(st, l1);
    let s2 = apply_state_line(s1, l2);
    assert(apply_state_lines(s2, seq![l3]) == apply_state_lines(apply_state_line(s2, l3), seq![l3].skip(1)));
    assert(apply_state_lines(s1, seq![l2, l3]) == apply_state_lines(s2, seq![l2, l3].skip(1)));
}

/// Reading back the state file written for some text, amplitude text and speaking flag
/// gives those three values again, where neither text ends in a carriage return and the
/// amplitude text holds no newline.
pub proof fn lemma_parse_format_tts_state(text: Seq<char>, amplitude: Seq<char>, speaking: bool)
    requires
        !(text.len() > 0 && text.last() == '\r'),
        !(amplitude.len() > 0 && amplitude.last() == '\r'),
        forall|i: int| 0 <= i < amplitude.len() ==> amplitude[i] != '\n',
    ensures
        parsed_tts_state(formatted_tts_state(text, amplitude, speaking)) == Some(
            TtsStateView { text, amplitude: Some(amplitude), speaking },
        ),
{
    let e = escaped(text);
    let d: Seq<char> = if speaking { seq!['1'] } else { seq!['0'] };
    let l1 = text_line_prefix() + e;
    let l2 = amp_line_prefix() + amplitude;
    let l3 = speaking_line_prefix() + d;
    let f = formatted_tts_state(text, amplitude, speaking);
    let st1 = TtsStateView { text, amplitude: None, speaking: false };
    let st2 = TtsStateView { text, amplitude: Some(amplitude), speaking: false };
    let st3 = TtsStateView { text, amplitude: Some(amplitude), speaking };
    assert(parsed_tts_state(f) == Some(apply_state_lines(idle_state_view(), lines_of(f)))) by {
        lemma_format_not_done(text, amplitude, speaking);
    }
    assert(lines_of(f) == seq![l1, l2, l3]) by {
        lemma_format_lines(text, amplitude, speaking);
    }
    assert(apply_state_line(idle_state_view(), l1) == st1) by {
        lemma_unescape_escape(text);
        lemma_apply_text_line(idle_state_view(), e);
    }
    assert(apply_state_line(st1, l2) == st2) by {
        lemma_apply_amp_line(st1, amplitude);
    }
    assert(apply_state_line(st2, l3) == st3) by {
        lemma_apply_speaking_line(st2, speaking);
    }
    assert(apply_state_lines(idle_state_view(), seq![l1, l2, l3]) == st3) by {
        lemma_apply_three(idle_state_view(), l1, l2, l3);
    }
}

} // verus!
