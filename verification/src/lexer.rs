//! Turns source text into tokens.
use vstd::prelude::*;

use crate::text::{
    char_is_ascii_digit, char_is_whitespace, is_ascii_digit, is_unicode_whitespace, nat_decimal,
    push_chars, push_u64_decimal, starts_at, starts_at_exec, str_chars, str_eq, string_from_chars,
};
use crate::token::{Token, TokenKind, TokenKindView, TokenView, ValueLiteral, ValueLiteralView};

verus! {

/// A lexing error and its message.
#[derive(Debug, Clone)]
pub struct LexErr {
    pub message: String,
}

/// The message of a lexing error found at the given position.
pub open spec fn lex_error_text(line: nat, column: nat, msg: Seq<char>) -> Seq<char> {
    "You are literally trolling. "@ + msg + " on line "@ + nat_decimal(line) + ", column "@
        + nat_decimal(column)
}

impl LexErr {
    fn new(line: usize, column: usize, msg: &str) -> (e: Self)
        ensures
            e.message@ == lex_error_text(line as nat, column as nat, msg@),
    {
        let mut out = str_chars("You are literally trolling. ");
        let m = str_chars(msg);
        push_chars(&mut out, m.as_slice());
        let a = str_chars(" on line ");
        push_chars(&mut out, a.as_slice());
        push_u64_decimal(&mut out, line as u64);
        let b = str_chars(", column ");
        push_chars(&mut out, b.as_slice());
        push_u64_decimal(&mut out, column as u64);
        LexErr { message: string_from_chars(out.as_slice()) }
    }
}

/// The token kind that a keyword stands for, if it is one.
pub open spec fn keyword_kind(keyword: Seq<char>) -> Option<TokenKind> {
    if keyword == "ttss"@ { Some(TokenKind::Ttss) }
    else if keyword == "tts"@ { Some(TokenKind::Tts) }
    else if keyword == "set"@ { Some(TokenKind::Assign) }
    else if keyword == "+set"@ { Some(TokenKind::AddSet) }
    else if keyword == "-set"@ { Some(TokenKind::SubSet) }
    else if keyword == "*set"@ { Some(TokenKind::MulSet) }
    else if keyword == "/set"@ { Some(TokenKind::DivSet) }
    else if keyword == "%set"@ { Some(TokenKind::ModSet) }
    else if keyword == "loop"@ { Some(TokenKind::Loop) }
    else if keyword == "guoD"@ { Some(TokenKind::Guod) }
    else if keyword == "Rigged"@ { Some(TokenKind::Rigged) }
    else if keyword == "prediction"@ { Some(TokenKind::Prediction) }
    else if keyword == "Believers"@ { Some(TokenKind::Believers) }
    else if keyword == "Doubters"@ { Some(TokenKind::Doubters) }
    else if keyword == "win"@ { Some(TokenKind::Win) }
    else if keyword == "("@ { Some(TokenKind::LParen) }
    else if keyword == ")"@ { Some(TokenKind::RParen) }
    else if keyword == "["@ { Some(TokenKind::LSquare) }
    else if keyword == "]"@ { Some(TokenKind::RSquare) }
    else if keyword == "="@ { Some(TokenKind::ComparisonEqual) }
    else if keyword == "!="@ { Some(TokenKind::ComparisonNotEqual) }
    else if keyword == ">"@ { Some(TokenKind::ComparisonGreater) }
    else if keyword == ">="@ { Some(TokenKind::ComparisonGreaterEqual) }
    else if keyword == "<"@ { Some(TokenKind::ComparisonLess) }
    else if keyword == "<="@ { Some(TokenKind::ComparisonLessEqual) }
    else { None }
}

/// The token kind of a keyword.
pub fn resolve_keyword(keyword: &str) -> (r: Option<TokenKind>)
    ensures
        r == keyword_kind(keyword@),
{
    if str_eq(keyword, "ttss") { Some(TokenKind::Ttss) }
    else if str_eq(keyword, "tts") { Some(TokenKind::Tts) }
    else if str_eq(keyword, "set") { Some(TokenKind::Assign) }
    else if str_eq(keyword, "+set") { Some(TokenKind::AddSet) }
    else if str_eq(keyword, "-set") { Some(TokenKind::SubSet) }
    else if str_eq(keyword, "*set") { Some(TokenKind::MulSet) }
    else if str_eq(keyword, "/set") { Some(TokenKind::DivSet) }
    else if str_eq(keyword, "%set") { Some(TokenKind::ModSet) }
    else if str_eq(keyword, "loop") { Some(TokenKind::Loop) }
    else if str_eq(keyword, "guoD") { Some(TokenKind::Guod) }
    else if str_eq(keyword, "Rigged") { Some(TokenKind::Rigged) }
    else if str_eq(keyword, "prediction") { Some(TokenKind::Prediction) }
    else if str_eq(keyword, "Believers") { Some(TokenKind::Believers) }
    else if str_eq(keyword, "Doubters") { Some(TokenKind::Doubters) }
    else if str_eq(keyword, "win") { Some(TokenKind::Win) }
    else if str_eq(keyword, "(") { Some(TokenKind::LParen) }
    else if str_eq(keyword, ")") { Some(TokenKind::RParen) }
    else if str_eq(keyword, "[") { Some(TokenKind::LSquare) }
    else if str_eq(keyword, "]") { Some(TokenKind::RSquare) }
    else if str_eq(keyword, "=") { Some(TokenKind::ComparisonEqual) }
    else if str_eq(keyword, "!=") { Some(TokenKind::ComparisonNotEqual) }
    else if str_eq(keyword, ">") { Some(TokenKind::ComparisonGreater) }
    else if str_eq(keyword, ">=") { Some(TokenKind::ComparisonGreaterEqual) }
    else if str_eq(keyword, "<") { Some(TokenKind::ComparisonLess) }
    else if str_eq(keyword, "<=") { Some(TokenKind::ComparisonLessEqual) }
    else { None }
}

/// The number of keywords, tried in the order of [`keyword_text`].
pub const KEYWORD_COUNT: usize = 25;

/// The keywords in the order they are tried: longer ones before their prefixes.
pub open spec fn keyword_text(k: int) -> Seq<char> {
    if k == 0 { "prediction"@ }
    else if k == 1 { "Believers"@ }
    else if k == 2 { "Doubters"@ }
    else if k == 3 { "Rigged"@ }
    else if k == 4 { "guoD"@ }
    else if k == 5 { "loop"@ }
    else if k == 6 { "ttss"@ }
    else if k == 7 { "+set"@ }
    else if k == 8 { "-set"@ }
    else if k == 9 { "*set"@ }
    else if k == 10 { "/set"@ }
    else if k == 11 { "%set"@ }
    else if k == 12 { "tts"@ }
    else if k == 13 { "set"@ }
    else if k == 14 { "win"@ }
    else if k == 15 { "!="@ }
    else if k == 16 { ">="@ }
    else if k == 17 { "<="@ }
    else if k == 18 { "("@ }
    else if k == 19 { ")"@ }
    else if k == 20 { "["@ }
    else if k == 21 { "]"@ }
    else if k == 22 { "="@ }
    else if k == 23 { ">"@ }
    else { "<"@ }
}

fn keyword(k: usize) -> (s: &'static str)
    requires
        k < KEYWORD_COUNT,
    ensures
        s@ == keyword_text(k as int),
{
    match k {
        0 => "prediction",
        1 => "Believers",
        2 => "Doubters",
        3 => "Rigged",
        4 => "guoD",
        5 => "loop",
        6 => "ttss",
        7 => "+set",
        8 => "-set",
        9 => "*set",
        10 => "/set",
        11 => "%set",
        12 => "tts",
        13 => "set",
        14 => "win",
        15 => "!=",
        16 => ">=",
        17 => "<=",
        18 => "(",
        19 => ")",
        20 => "[",
        21 => "]",
        22 => "=",
        23 => ">",
        _ => "<",
    }
}

proof fn lemma_keywords()
    ensures
        forall|k: int|
            0 <= k < KEYWORD_COUNT ==> #[trigger] keyword_kind(keyword_text(k)) is Some && keyword_text(
                k,
            ).len() > 0,
{
    reveal_strlit("ttss");
    reveal_strlit("tts");
    reveal_strlit("set");
    reveal_strlit("+set");
    reveal_strlit("-set");
    reveal_strlit("*set");
    reveal_strlit("/set");
    reveal_strlit("%set");
    reveal_strlit("loop");
    reveal_strlit("guoD");
    reveal_strlit("Rigged");
    reveal_strlit("prediction");
    reveal_strlit("Believers");
    reveal_strlit("Doubters");
    reveal_strlit("win");
    reveal_strlit("(");
    reveal_strlit(")");
    reveal_strlit("[");
    reveal_strlit("]");
    reveal_strlit("=");
    reveal_strlit("!=");
    reveal_strlit(">");
    reveal_strlit(">=");
    reveal_strlit("<");
    reveal_strlit("<=");
}


/// A position of the lexer: index into the source characters, line and column.
pub struct LexPos {
    pub i: nat,
    pub line: nat,
    pub column: nat,
}

/// What one step of the lexer does at a position.
pub enum LexStep {
    Skip(LexPos),
    Emit(TokenView, LexPos),
    Fail(Seq<char>),
}

pub open spec fn comment_open() -> Seq<char> {
    seq!['D', ':']
}

pub open spec fn comment_close() -> Seq<char> {
    seq![':', 'D']
}

pub open spec fn bald_text() -> Seq<char> {
    seq!['B', 'a', 'l', 'd']
}

pub open spec fn doug_text() -> Seq<char> {
    seq!['D', 'o', 'u', 'g']
}

/// Where the comment whose body starts at `j` is closed, if it is.
pub open spec fn comment_end(s: Seq<char>, j: int) -> Option<int>
    decreases s.len() - j,
{
    if j < 0 || j >= s.len() {
        None
    } else if starts_at(s, j, comment_close()) {
        Some(j)
    } else {
        comment_end(s, j + 1)
    }
}

/// Line and column after reading `s[start..end]` from line `line`, column `column`.
pub open spec fn advance(s: Seq<char>, start: int, end: int, line: nat, column: nat) -> (nat, nat)
    decreases end - start,
{
    if end <= start {
        (line, column)
    } else {
        let (l, c) = advance(s, start, end - 1, line, column);
        if s[end - 1] == '\n' {
            (l + 1, 1)
        } else {
            (l, c + 1)
        }
    }
}

/// How many `Doug` follow one another from `i`.
pub open spec fn doug_run(s: Seq<char>, i: int) -> nat
    decreases s.len() - i,
{
    if i >= 0 && starts_at(s, i, doug_text()) {
        1 + doug_run(s, i + 4)
    } else {
        0
    }
}

/// The first keyword, from the `k`-th on, that occurs at `i`.
pub open spec fn first_keyword(s: Seq<char>, i: int, k: int) -> Option<int>
    decreases KEYWORD_COUNT - k,
{
    if k < 0 || k >= KEYWORD_COUNT {
        None
    } else if starts_at(s, i, keyword_text(k)) {
        Some(k)
    } else {
        first_keyword(s, i, k + 1)
    }
}

/// The end of a string literal whose body starts at `j`: its content, the index after the
/// closing quote, and the line and column there; `None` where it is not closed.
pub open spec fn scan_string(
    s: Seq<char>,
    j: int,
    quote: char,
    line: nat,
    column: nat,
    content: Seq<char>,
) -> Option<(Seq<char>, int, nat, nat)>
    decreases s.len() - j,
{
    if j < 0 || j >= s.len() {
        None
    } else if s[j] == '\\' && j + 1 < s.len() {
        scan_string(s, j + 2, quote, line, column + 2, content + seq![s[j], s[j + 1]])
    } else if s[j] == quote {
        Some((content, j + 1, line, column + 1))
    } else if s[j] == '\n' {
        scan_string(s, j + 1, quote, line + 1, 1, content.push('\n'))
    } else {
        scan_string(s, j + 1, quote, line, column + 1, content.push(s[j]))
    }
}

/// How a number starting before `j` goes on: `Ok` with its end and whether it holds a
/// decimal point, or `Err` with the index of a second decimal point.
pub open spec fn scan_number(s: Seq<char>, j: int, has_decimal: bool) -> Result<(int, bool), int>
    decreases s.len() - j,
{
    if 0 <= j < s.len() && (is_ascii_digit(s[j]) || s[j] == '.') {
        if s[j] == '.' && has_decimal {
            Err(j)
        } else {
            scan_number(s, j + 1, has_decimal || s[j] == '.')
        }
    } else {
        Ok((j, has_decimal))
    }
}

/// The value of a sequence of decimal digits.
pub open spec fn decimal_value(s: Seq<char>) -> nat
    decreases s.len(),
{
    if s.len() == 0 {
        0
    } else {
        decimal_value(s.drop_last()) * 10 + (s.last() as nat - '0' as nat) as nat
    }
}

pub open spec fn tok(kind: TokenKindView, line: nat, column: nat) -> TokenView {
    TokenView { kind, line, column }
}

/// One step of the lexer at position `p`, which lies inside the source.
pub open spec fn lex_step(s: Seq<char>, p: LexPos) -> LexStep {
    let i = p.i as int;
    let c = s[i];
    if c == '\n' {
        LexStep::Skip(LexPos { i: p.i + 1, line: p.line + 1, column: 1 })
    } else if is_unicode_whitespace(c) {
        LexStep::Skip(LexPos { i: p.i + 1, line: p.line, column: p.column + 1 })
    } else if starts_at(s, i, comment_open()) {
        match comment_end(s, i + 2) {
            None => LexStep::Fail(lex_error_text(p.line, p.column, "unclosed comment"@)),
            Some(j) => {
                let (l, col) = advance(s, i + 2, j, p.line, p.column + 2);
                LexStep::Skip(LexPos { i: (j + 2) as nat, line: l, column: col + 2 })
            },
        }
    } else if starts_at(s, i, bald_text()) {
        LexStep::Emit(
            tok(TokenKindView::Plain(TokenKind::Bald), p.line, p.column),
            LexPos { i: p.i + 4, line: p.line, column: p.column + 4 },
        )
    } else if starts_at(s, i, doug_text()) {
        let n = doug_run(s, i);
        LexStep::Emit(
            tok(TokenKindView::Plain(TokenKind::Doug { count: n as usize }), p.line, p.column),
            LexPos { i: p.i + 4 * n, line: p.line, column: p.column + 4 * n },
        )
    } else if first_keyword(s, i, 0) is Some {
        let k = first_keyword(s, i, 0)->0;
        let len = keyword_text(k).len();
        LexStep::Emit(
            tok(TokenKindView::Plain(keyword_kind(keyword_text(k))->0), p.line, p.column),
            LexPos { i: p.i + len, line: p.line, column: p.column + len },
        )
    } else if c == '"' || c == '\'' {
        match scan_string(s, i + 1, c, p.line, p.column + 1, seq![]) {
            None => LexStep::Fail(lex_error_text(p.line, p.column, "unclosed string literal"@)),
            Some((content, j, l, col)) => LexStep::Emit(
                tok(TokenKindView::Literal(ValueLiteralView::Str(content)), p.line, p.column),
                LexPos { i: j as nat, line: l, column: col },
            ),
        }
    } else if is_ascii_digit(c) || c == '.' {
        match scan_number(s, i + 1, c == '.') {
            Err(j) => LexStep::Fail(
                lex_error_text(p.line, (p.column + (j - i)) as nat, "malformed number"@),
            ),
            Ok((j, has_decimal)) => {
                let text = s.subrange(i, j);
                let next = LexPos { i: j as nat, line: p.line, column: (p.column + (j - i)) as nat };
                if has_decimal {
                    if text.len() == 1 {
                        LexStep::Fail(lex_error_text(p.line, p.column, "malformed number"@))
                    } else {
                        LexStep::Emit(
                            tok(TokenKindView::Literal(ValueLiteralView::Float(text)), p.line, p.column),
                            next,
                        )
                    }
                } else if decimal_value(text) > i64::MAX {
                    LexStep::Fail(lex_error_text(p.line, p.column, "malformed number"@))
                } else {
                    LexStep::Emit(
                        tok(
                            TokenKindView::Literal(ValueLiteralView::Int(decimal_value(text) as i64)),
                            p.line,
                            p.column,
                        ),
                        next,
                    )
                }
            },
        }
    } else {
        LexStep::Fail(lex_error_text(p.line, p.column, "unknown token"@))
    }
}

/// The index a step moves to; a failing step stays.
pub open spec fn step_index(st: LexStep, i: nat) -> nat {
    match st {
        LexStep::Skip(q) => q.i,
        LexStep::Emit(_, q) => q.i,
        LexStep::Fail(_) => i,
    }
}

proof fn lemma_comment_end(s: Seq<char>, j: int)
    requires
        0 <= j,
    ensures
        comment_end(s, j) matches Some(k) ==> j <= k && k + 2 <= s.len(),
    decreases s.len() - j,
{
    if j < s.len() && !starts_at(s, j, comment_close()) {
        lemma_comment_end(s, j + 1);
    }
}

proof fn lemma_doug_run(s: Seq<char>, i: int)
    requires
        0 <= i <= s.len(),
    ensures
        i + 4 * doug_run(s, i) <= s.len(),
    decreases s.len() - i,
{
    if starts_at(s, i, doug_text()) {
        lemma_doug_run(s, i + 4);
    }
}

proof fn lemma_first_keyword(s: Seq<char>, i: int, k: int)
    requires
        0 <= k,
    ensures
        first_keyword(s, i, k) matches Some(m) ==> k <= m < KEYWORD_COUNT && starts_at(
            s,
            i,
            keyword_text(m),
        ),
    decreases KEYWORD_COUNT - k,
{
    if k < KEYWORD_COUNT && !starts_at(s, i, keyword_text(k)) {
        lemma_first_keyword(s, i, k + 1);
    }
}

proof fn lemma_scan_string(
    s: Seq<char>,
    j: int,
    quote: char,
    line: nat,
    column: nat,
    content: Seq<char>,
)
    requires
        0 <= j,
    ensures
        scan_string(s, j, quote, line, column, content) matches Some((_c, e, _l, _k)) ==> j < e
            <= s.len(),
    decreases s.len() - j,
{
    if 0 <= j < s.len() {
        if s[j] == '\\' && j + 1 < s.len() {
            lemma_scan_string(s, j + 2, quote, line, column + 2, content + seq![s[j], s[j + 1]]);
        } else if s[j] == quote {
        } else if s[j] == '\n' {
            lemma_scan_string(s, j + 1, quote, line + 1, 1, content.push('\n'));
        } else {
            lemma_scan_string(s, j + 1, quote, line, column + 1, content.push(s[j]));
        }
    }
}

proof fn lemma_scan_number(s: Seq<char>, j: int, has_decimal: bool)
    requires
        0 <= j,
    ensures
        scan_number(s, j, has_decimal) matches Ok((e, _d)) ==> j <= e && e <= s.len() || e == j,
        scan_number(s, j, has_decimal) matches Err(e) ==> j <= e < s.len(),
    decreases s.len() - j,
{
    if 0 <= j < s.len() && (is_ascii_digit(s[j]) || s[j] == '.') {
        if !(s[j] == '.' && has_decimal) {
            lemma_scan_number(s, j + 1, has_decimal || s[j] == '.');
        }
    }
}

/// Every step of the lexer moves forward, and stays inside the source.
pub proof fn lemma_lex_step_progress(s: Seq<char>, p: LexPos)
    requires
        p.i < s.len(),
    ensures
        lex_step(s, p) !is Fail ==> p.i < step_index(lex_step(s, p), p.i) <= s.len(),
{
    let i = p.i as int;
    lemma_comment_end(s, i + 2);
    lemma_doug_run(s, i);
    lemma_first_keyword(s, i, 0);
    lemma_keywords();
    lemma_scan_string(s, i + 1, s[i], p.line, p.column + 1, seq![]);
    lemma_scan_number(s, i + 1, s[i] == '.');
    if starts_at(s, i, doug_text()) {
        assert(doug_run(s, i) >= 1);
    }
    if first_keyword(s, i, 0) is Some {
        let k = first_keyword(s, i, 0)->0;
        assert(keyword_text(k).len() > 0);
    }
}

/// The tokens of `s` from position `p` on, or the message of the first error met.
pub open spec fn lex_from(s: Seq<char>, p: LexPos) -> Result<Seq<TokenView>, Seq<char>>
    decreases s.len() - p.i,
{
    if p.i >= s.len() {
        Ok(seq![])
    } else {
        proof {
            lemma_lex_step_progress(s, p);
        }
        match lex_step(s, p) {
            LexStep::Fail(m) => Err(m),
            LexStep::Skip(q) => lex_from(s, q),
            LexStep::Emit(t, q) => match lex_from(s, q) {
                Ok(ts) => Ok(seq![t] + ts),
                Err(m) => Err(m),
            },
        }
    }
}

/// Whether the place `(l1, c1)` comes before `(l2, c2)` in reading order.
pub open spec fn place_before(l1: nat, c1: nat, l2: nat, c2: nat) -> bool {
    l1 < l2 || (l1 == l2 && c1 < c2)
}

/// Whether the spans of `ts` strictly ascend in reading order.
pub open spec fn spans_ascend(ts: Seq<TokenView>) -> bool {
    forall|i: int, j: int|
        0 <= i < j < ts.len() ==> place_before(#[trigger] ts[i].line, ts[i].column, #[trigger] ts[j].line, ts[j].column)
}

proof fn lemma_advance_forward(s: Seq<char>, start: int, end: int, line: nat, column: nat)
    ensures
        ({
            let (l, c) = advance(s, start, end, line, column);
            l > line || (l == line && c >= column)
        }),
    decreases end - start,
{
    if end > start {
        lemma_advance_forward(s, start, end - 1, line, column);
    }
}

proof fn lemma_scan_string_forward(s: Seq<char>, j: int, quote: char, line: nat, column: nat, content: Seq<char>)
    ensures
        scan_string(s, j, quote, line, column, content) matches Some((_c, _e, l, k)) ==> l > line || (l == line
            && k > column),
    decreases s.len() - j,
{
    if 0 <= j < s.len() {
        if s[j] == '\\' && j + 1 < s.len() {
            lemma_scan_string_forward(s, j + 2, quote, line, column + 2, content + seq![s[j], s[j + 1]]);
        } else if s[j] == quote {
        } else if s[j] == '\n' {
            lemma_scan_string_forward(s, j + 1, quote, line + 1, 1, content.push('\n'));
        } else {
            lemma_scan_string_forward(s, j + 1, quote, line, column + 1, content.push(s[j]));
        }
    }
}

/// Every step of the lexer moves its place forward in reading order.
proof fn lemma_lex_step_forward(s: Seq<char>, p: LexPos)
    requires
        p.i < s.len(),
    ensures
        match lex_step(s, p) {
            LexStep::Skip(q) => place_before(p.line, p.column, q.line, q.column),
            LexStep::Emit(t, q) => t.line == p.line && t.column == p.column && place_before(p.line, p.column, q.line, q.column),
            LexStep::Fail(_) => true,
        },
{
    let i = p.i as int;
    lemma_lex_step_progress(s, p);
    lemma_comment_end(s, i + 2);
    if starts_at(s, i, comment_open()) {
        match comment_end(s, i + 2) {
            Some(j) => lemma_advance_forward(s, i + 2, j, p.line, p.column + 2),
            None => {},
        }
    }
    lemma_scan_string_forward(s, i + 1, s[i], p.line, p.column + 1, seq![]);
    lemma_doug_run(s, i);
    if starts_at(s, i, doug_text()) {
        assert(doug_run(s, i) >= 1);
    }
    lemma_first_keyword(s, i, 0);
    lemma_keywords();
    if first_keyword(s, i, 0) is Some {
        let k = first_keyword(s, i, 0)->0;
        assert(keyword_text(k).len() > 0);
    }
    lemma_scan_number(s, i + 1, s[i] == '.');
}

proof fn lemma_lex_from_ascends(s: Seq<char>, p: LexPos)
    ensures
        lex_from(s, p) matches Ok(ts) ==> {
            &&& spans_ascend(ts)
            &&& forall|k: int| 0 <= k < ts.len() ==> !place_before(#[trigger] ts[k].line, ts[k].column, p.line, p.column)
        },
    decreases s.len() - p.i,
{
    if p.i < s.len() {
        lemma_lex_step_progress(s, p);
        lemma_lex_step_forward(s, p);
        match lex_step(s, p) {
            LexStep::Fail(_) => {},
            LexStep::Skip(q) => {
                lemma_lex_from_ascends(s, q);
            },
            LexStep::Emit(t, q) => {
                lemma_lex_from_ascends(s, q);
                match lex_from(s, q) {
                    Ok(rest) => {
                        let ts = seq![t] + rest;
                        assert forall|a: int, b: int| 0 <= a < b < ts.len() implies place_before(
                            #[trigger] ts[a].line,
                            ts[a].column,
                            #[trigger] ts[b].line,
                            ts[b].column,
                        ) by {
                            assert(ts[b] == rest[b - 1]);
                            if a > 0 {
                                assert(ts[a] == rest[a - 1]);
                            } else {
                                assert(!place_before(rest[b - 1].line, rest[b - 1].column, q.line, q.column));
                            }
                        }
                        assert forall|k: int| 0 <= k < ts.len() implies !place_before(#[trigger] ts[k].line, ts[k].column, p.line, p.column) by {
                            if k > 0 {
                                assert(ts[k] == rest[k - 1]);
                                assert(!place_before(rest[k - 1].line, rest[k - 1].column, q.line, q.column));
                            }
                        }
                    },
                    Err(_) => {},
                }
            },
        }
    }
}

/// The tokens of a source come in the order they stand in it: each token's line and
/// column lie after those of the token before it.
pub proof fn lemma_lexed_spans_ascend(source: Seq<char>)
    ensures
        lexed(source) matches Ok(ts) ==> spans_ascend(ts),
{
    lemma_lex_from_ascends(source, LexPos { i: 0, line: 1, column: 1 });
}

/// Whether `c` has the Unicode White_Space property, as `char::is_whitespace` tests:
/// tab, line feed, vertical tab, form feed, carriage return, space, next line, no-break
/// space, ogham space mark, the spaces from en quad to hair space, line and paragraph
/// separators, narrow no-break space, medium mathematical space and ideographic space.
pub open spec fn white_space(c: char) -> bool {
    ||| c == '\t'
    ||| c == '\n'
    ||| c == '\u{b}'
    ||| c == '\u{c}'
    ||| c == '\r'
    ||| c == ' '
    ||| c == '\u{85}'
    ||| c == '\u{a0}'
    ||| c == '\u{1680}'
    ||| ('\u{2000}' <= c <= '\u{200a}')
    ||| c == '\u{2028}'
    ||| c == '\u{2029}'
    ||| c == '\u{202f}'
    ||| c == '\u{205f}'
    ||| c == '\u{3000}'
}

/// Whether `a` and `b` have the same length and the same characters from `k` on.
pub open spec fn same_from(a: Seq<char>, b: Seq<char>, k: int) -> bool {
    &&& a.len() == b.len()
    &&& forall|j: int| k <= j < a.len() ==> a[j] == b[j]
}

proof fn lemma_starts_at_from(a: Seq<char>, b: Seq<char>, k: int, i: int, t: Seq<char>)
    requires
        same_from(a, b, k),
        k <= i,
    ensures
        starts_at(a, i, t) == starts_at(b, i, t),
{
    if 0 <= i && i + t.len() <= a.len() {
        assert(a.subrange(i, i + t.len()) =~= b.subrange(i, i + t.len()));
    }
}

proof fn lemma_comment_end_from(a: Seq<char>, b: Seq<char>, k: int, j: int)
    requires
        same_from(a, b, k),
        k <= j,
    ensures
        comment_end(a, j) == comment_end(b, j),
    decreases a.len() - j,
{
    lemma_starts_at_from(a, b, k, j, comment_close());
    if 0 <= j < a.len() && !starts_at(a, j, comment_close()) {
        lemma_comment_end_from(a, b, k, j + 1);
    }
}

proof fn lemma_advance_from(a: Seq<char>, b: Seq<char>, k: int, start: int, end: int, line: nat, column: nat)
    requires
        same_from(a, b, k),
        k <= start,
        end <= a.len(),
    ensures
        advance(a, start, end, line, column) == advance(b, start, end, line, column),
    decreases end - start,
{
    if end > start {
        lemma_advance_from(a, b, k, start, end - 1, line, column);
    }
}

proof fn lemma_doug_run_from(a: Seq<char>, b: Seq<char>, k: int, i: int)
    requires
        same_from(a, b, k),
        k <= i,
    ensures
        doug_run(a, i) == doug_run(b, i),
    decreases a.len() - i,
{
    lemma_starts_at_from(a, b, k, i, doug_text());
    if i >= 0 && starts_at(a, i, doug_text()) {
        lemma_doug_run_from(a, b, k, i + 4);
    }
}

proof fn lemma_first_keyword_from(a: Seq<char>, b: Seq<char>, k: int, i: int, m: int)
    requires
        same_from(a, b, k),
        k <= i,
    ensures
        first_keyword(a, i, m) == first_keyword(b, i, m),
    decreases KEYWORD_COUNT - m,
{
    if 0 <= m < KEYWORD_COUNT {
        lemma_starts_at_from(a, b, k, i, keyword_text(m));
        lemma_first_keyword_from(a, b, k, i, m + 1);
    }
}

proof fn lemma_scan_string_from(
    a: Seq<char>,
    b: Seq<char>,
    k: int,
    j: int,
    quote: char,
    line: nat,
    column: nat,
    content: Seq<char>,
)
    requires
        same_from(a, b, k),
        k <= j,
    ensures
        scan_string(a, j, quote, line, column, content) == scan_string(b, j, quote, line, column, content),
    decreases a.len() - j,
{
    if 0 <= j < a.len() {
        if a[j] == '\\' && j + 1 < a.len() {
            lemma_scan_string_from(a, b, k, j + 2, quote, line, column + 2, content + seq![a[j], a[j + 1]]);
        } else if a[j] == quote {
        } else if a[j] == '\n' {
            lemma_scan_string_from(a, b, k, j + 1, quote, line + 1, 1, content.push('\n'));
        } else {
            lemma_scan_string_from(a, b, k, j + 1, quote, line, column + 1, content.push(a[j]));
        }
    }
}

proof fn lemma_scan_number_from(a: Seq<char>, b: Seq<char>, k: int, j: int, has_decimal: bool)
    requires
        same_from(a, b, k),
        k <= j,
    ensures
        scan_number(a, j, has_decimal) == scan_number(b, j, has_decimal),
    decreases a.len() - j,
{
    if 0 <= j < a.len() && (is_ascii_digit(a[j]) || a[j] == '.') && !(a[j] == '.' && has_decimal) {
        lemma_scan_number_from(a, b, k, j + 1, has_decimal || a[j] == '.');
    }
}

/// A step of the lexer reads nothing before its position.
proof fn lemma_lex_step_from(a: Seq<char>, b: Seq<char>, k: int, p: LexPos)
    requires
        same_from(a, b, k),
        k <= p.i < a.len(),
    ensures
        lex_step(a, p) == lex_step(b, p),
{
    let i = p.i as int;
    lemma_starts_at_from(a, b, k, i, comment_open());
    lemma_starts_at_from(a, b, k, i, bald_text());
    lemma_starts_at_from(a, b, k, i, doug_text());
    lemma_comment_end_from(a, b, k, i + 2);
    lemma_comment_end(a, i + 2);
    match comment_end(a, i + 2) {
        Some(j) => lemma_advance_from(a, b, k, i + 2, j, p.line, p.column + 2),
        None => {},
    }
    lemma_doug_run_from(a, b, k, i);
    lemma_first_keyword_from(a, b, k, i, 0);
    lemma_scan_string_from(a, b, k, i + 1, a[i], p.line, p.column + 1, seq![]);
    lemma_scan_number_from(a, b, k, i + 1, a[i] == '.');
    lemma_scan_number(a, i + 1, a[i] == '.');
    match scan_number(a, i + 1, a[i] == '.') {
        Ok((j, _)) => {
            if i <= j <= a.len() {
                assert(a.subrange(i, j) =~= b.subrange(i, j));
            }
        },
        Err(_) => {},
    }
}

/// Lexing from a position reads nothing before it.
proof fn lemma_lex_from_from(a: Seq<char>, b: Seq<char>, k: int, p: LexPos)
    requires
        same_from(a, b, k),
        k <= p.i,
    ensures
        lex_from(a, p) == lex_from(b, p),
    decreases a.len() - p.i,
{
    if p.i < a.len() {
        lemma_lex_step_progress(a, p);
        lemma_lex_step_from(a, b, k, p);
        match lex_step(a, p) {
            LexStep::Skip(q) => lemma_lex_from_from(a, b, k, q),
            LexStep::Emit(_, q) => lemma_lex_from_from(a, b, k, q),
            LexStep::Fail(_) => {},
        }
    }
}

/// Wherever the lexer stands between tokens, a white space character other than a line
/// feed there (a tab, say) reads as a space would: what lexing from that place gives is
/// the same with a space in its stead.
pub proof fn lemma_white_space_between_tokens(s: Seq<char>, p: LexPos)
    requires
        p.i < s.len(),
        white_space(s[p.i as int]),
        s[p.i as int] != '\n',
    ensures
        lex_from(s, p) == lex_from(s.update(p.i as int, ' '), p),
{
    let b = s.update(p.i as int, ' ');
    let q = LexPos { i: p.i + 1, line: p.line, column: p.column + 1 };
    assert(is_unicode_whitespace(s[p.i as int]));
    assert(lex_step(s, p) == LexStep::Skip(q));
    assert(lex_step(b, p) == LexStep::Skip(q));
    lemma_lex_step_progress(s, p);
    lemma_lex_step_progress(b, p);
    lemma_lex_from_from(s, b, p.i + 1int, q);
}

/// A source of nothing but white space (tabs included) gives no tokens.
pub proof fn lemma_white_space_gives_no_tokens(s: Seq<char>)
    requires
        forall|i: int| 0 <= i < s.len() ==> white_space(#[trigger] s[i]),
    ensures
        lexed(s) == Ok::<Seq<TokenView>, Seq<char>>(Seq::empty()),
{
    lemma_white_space_from(s, LexPos { i: 0, line: 1, column: 1 });
}

proof fn lemma_white_space_from(s: Seq<char>, p: LexPos)
    requires
        forall|i: int| 0 <= i < s.len() ==> white_space(#[trigger] s[i]),
    ensures
        lex_from(s, p) == Ok::<Seq<TokenView>, Seq<char>>(Seq::empty()),
    decreases s.len() - p.i,
{
    if p.i < s.len() {
        let c = s[p.i as int];
        assert(white_space(c));
        assert(is_unicode_whitespace(c));
        lemma_lex_step_progress(s, p);
        match lex_step(s, p) {
            LexStep::Skip(q) => lemma_white_space_from(s, q),
            _ => {},
        }
    }
}

/// White space between tokens is skipped: a source that starts with a white space
/// character other than a line feed (a tab, say) lexes as it does with a space there.
pub proof fn lemma_leading_white_space_is_a_space(w: char, t: Seq<char>)
    requires
        white_space(w),
        w != '\n',
    ensures
        lexed(seq![w] + t) == lexed(seq![' '] + t),
{
    let a = seq![w] + t;
    let b = seq![' '] + t;
    assert(a[0] == w && b[0] == ' ');
    assert(is_unicode_whitespace(w));
    let p = LexPos { i: 0, line: 1, column: 1 };
    let q = LexPos { i: 1, line: 1, column: 2 };
    assert(lex_step(a, p) == LexStep::Skip(q));
    assert(lex_step(b, p) == LexStep::Skip(q));
    assert forall|j: int| 1 <= j < a.len() implies a[j] == b[j] by {
        assert(a[j] == t[j - 1] && b[j] == t[j - 1]);
    }
    lemma_lex_from_from(a, b, 1, q);
}

/// The tokens of a source text, or the message of the first lexing error.
pub open spec fn lexed(source: Seq<char>) -> Result<Seq<TokenView>, Seq<char>> {
    lex_from(source, LexPos { i: 0, line: 1, column: 1 })
}


proof fn lemma_advance_bound(s: Seq<char>, start: int, end: int, line: nat, column: nat)
    requires
        start <= end,
    ensures
        advance(s, start, end, line, column).0 <= line + (end - start),
        advance(s, start, end, line, column).1 <= column + (end - start),
    decreases end - start,
{
    if start < end {
        lemma_advance_bound(s, start, end - 1, line, column);
    }
}

fn scan_comment(chars: &Vec<char>, start: usize, line: usize, column: usize) -> (r: Option<
    (usize, usize, usize),
>)
    requires
        start <= chars.len(),
        chars@.len() <= isize::MAX,
        line <= start + 1,
        column <= start + 1,
    ensures
        r is None <==> comment_end(chars@, start as int) is None,
        r matches Some((j, l, c)) ==> comment_end(chars@, start as int) == Some(j as int) && (
        l as nat, c as nat) == advance(chars@, start as int, j as int, line as nat, column as nat)
            && l <= j + 1 && c <= j + 1,
{
    let ghost s = chars@;
    let close = vec![':', 'D'];
    assert(close@ == comment_close());
    let mut j = start;
    let mut l = line;
    let mut c = column;
    while j < chars.len() && !starts_at_exec(chars.as_slice(), j, close.as_slice())
        invariant
            s == chars@,
            close@ == comment_close(),
            s.len() <= isize::MAX,
            start <= j <= s.len(),
            comment_end(s, start as int) == comment_end(s, j as int),
            (l as nat, c as nat) == advance(s, start as int, j as int, line as nat, column as nat),
            l <= j + 1,
            c <= j + 1,
        decreases s.len() - j,
    {
        if chars[j] == '\n' {
            l = l + 1;
            c = 1;
        } else {
            c = c + 1;
        }
        j = j + 1;
    }
    if starts_at_exec(chars.as_slice(), j, close.as_slice()) {
        Some((j, l, c))
    } else {
        None
    }
}

fn count_dougs(chars: &Vec<char>, i: usize) -> (n: usize)
    requires
        i <= chars.len(),
        chars@.len() <= isize::MAX,
    ensures
        n == doug_run(chars@, i as int),
        i + 4 * n <= chars.len(),
{
    let ghost s = chars@;
    let doug = vec!['D', 'o', 'u', 'g'];
    assert(doug@ == doug_text());
    proof {
        lemma_doug_run(s, i as int);
    }
    let mut n: usize = 0;
    let mut j = i;
    while starts_at_exec(chars.as_slice(), j, doug.as_slice())
        invariant
            s == chars@,
            s.len() <= isize::MAX,
            doug@ == doug_text(),
            i <= j <= s.len(),
            j == i + 4 * n,
            doug_run(s, i as int) == n + doug_run(s, j as int),
            i + 4 * doug_run(s, i as int) <= s.len(),
        decreases s.len() - j,
    {
        n = n + 1;
        j = j + 4;
    }
    n
}

fn find_keyword(chars: &Vec<char>, i: usize) -> (r: Option<usize>)
    ensures
        r matches Some(k) ==> first_keyword(chars@, i as int, 0) == Some(k as int) && k
            < KEYWORD_COUNT,
        r is None ==> first_keyword(chars@, i as int, 0) is None,
{
    let mut k: usize = 0;
    while k < KEYWORD_COUNT
        invariant
            k <= KEYWORD_COUNT,
            first_keyword(chars@, i as int, 0) == first_keyword(chars@, i as int, k as int),
        decreases KEYWORD_COUNT - k,
    {
        let kw = str_chars(keyword(k));
        if starts_at_exec(chars.as_slice(), i, kw.as_slice()) {
            return Some(k);
        }
        k = k + 1;
    }
    None
}

fn scan_string_exec(chars: &Vec<char>, start: usize, quote: char, line: usize, column: usize) -> (r:
    Option<(Vec<char>, usize, usize, usize)>)
    requires
        start <= chars.len(),
        chars@.len() <= isize::MAX,
        line <= start + 1,
        column <= start + 1,
    ensures
        r is None <==> scan_string(chars@, start as int, quote, line as nat, column as nat, seq![])
            is None,
        r matches Some((content, j, l, c)) ==> scan_string(
            chars@,
            start as int,
            quote,
            line as nat,
            column as nat,
            seq![],
        ) == Some((content@, j as int, l as nat, c as nat)) && j <= chars.len() && l <= j + 1 && c
            <= j + 1,
{
    let ghost s = chars@;
    let mut content: Vec<char> = Vec::new();
    let mut j = start;
    let mut l = line;
    let mut c = column;
    while j < chars.len()
        invariant
            s == chars@,
            s.len() <= isize::MAX,
            start <= j <= s.len(),
            scan_string(s, start as int, quote, line as nat, column as nat, seq![]) == scan_string(
                s,
                j as int,
                quote,
                l as nat,
                c as nat,
                content@,
            ),
            l <= j + 1,
            c <= j + 1,
        decreases s.len() - j,
    {
        if chars[j] == '\\' && j + 1 < chars.len() {
            let ghost before = content@;
            content.push(chars[j]);
            content.push(chars[j + 1]);
            assert(content@ =~= before + seq![s[j as int], s[j + 1]]);
            j = j + 2;
            c = c + 2;
        } else if chars[j] == quote {
            return Some((content, j + 1, l, c + 1));
        } else if chars[j] == '\n' {
            content.push('\n');
            l = l + 1;
            c = 1;
            j = j + 1;
        } else {
            content.push(chars[j]);
            c = c + 1;
            j = j + 1;
        }
    }
    None
}


fn scan_number_exec(chars: &Vec<char>, start: usize, has_decimal: bool) -> (r: Result<(usize, bool), usize>)
    requires
        start <= chars.len(),
    ensures
        r matches Ok((j, d)) ==> scan_number(chars@, start as int, has_decimal) == Ok::<
            (int, bool),
            int,
        >((j as int, d)) && start <= j <= chars.len(),
        r matches Err(j) ==> scan_number(chars@, start as int, has_decimal) == Err::<(int, bool), int>(
            j as int,
        ) && start <= j < chars.len(),
{
    let ghost s = chars@;
    let mut j = start;
    let mut d = has_decimal;
    while j < chars.len() && (char_is_ascii_digit(chars[j]) || chars[j] == '.')
        invariant
            s == chars@,
            start <= j <= s.len(),
            scan_number(s, start as int, has_decimal) == scan_number(s, j as int, d),
        decreases s.len() - j,
    {
        if chars[j] == '.' {
            if d {
                return Err(j);
            }
            d = true;
        }
        j = j + 1;
    }
    Ok((j, d))
}

proof fn lemma_decimal_value_take(t: Seq<char>, m: int)
    requires
        0 <= m < t.len(),
    ensures
        decimal_value(t.take(m + 1)) == decimal_value(t.take(m)) * 10 + (t[m] as nat - '0' as nat) as nat,
{
    assert(t.take(m + 1).drop_last() =~= t.take(m));
}

proof fn lemma_decimal_value_monotone(t: Seq<char>, m: int)
    requires
        0 <= m <= t.len(),
        forall|k: int| 0 <= k < t.len() ==> is_ascii_digit(t[k]),
    ensures
        decimal_value(t.take(m)) <= decimal_value(t),
    decreases t.len() - m,
{
    if m < t.len() {
        lemma_decimal_value_take(t, m);
        lemma_decimal_value_monotone(t, m + 1);
    } else {
        assert(t.take(m) =~= t);
    }
}

/// The value of the digits `chars[from..to]`, where it fits an `i64`.
fn decimal_value_exec(chars: &Vec<char>, from: usize, to: usize) -> (r: Option<i64>)
    requires
        from <= to <= chars.len(),
        forall|k: int| from <= k < to ==> is_ascii_digit(chars@[k]),
    ensures
        r matches Some(v) ==> decimal_value(chars@.subrange(from as int, to as int)) == v,
        r is None <==> decimal_value(chars@.subrange(from as int, to as int)) > i64::MAX,
{
    let ghost t = chars@.subrange(from as int, to as int);
    let mut acc: u64 = 0;
    let mut k = from;
    assert(t.take(0) =~= Seq::<char>::empty());
    while k < to
        invariant
            from <= k <= to <= chars.len(),
            t == chars@.subrange(from as int, to as int),
            forall|m: int| 0 <= m < t.len() ==> is_ascii_digit(t[m]),
            acc <= i64::MAX,
            acc == decimal_value(t.take(k - from)),
        decreases to - k,
    {
        let c = chars[k];
        let d: u64 = if c == '0' { 0 } else if c == '1' { 1 } else if c == '2' { 2 } else if c
            == '3' { 3 } else if c == '4' { 4 } else if c == '5' { 5 } else if c == '6' { 6 } else if c
            == '7' { 7 } else if c == '8' { 8 } else { 9 };
        proof {
            assert(t[k - from] == c);
            assert(d == (c as nat - '0' as nat) as nat);
            lemma_decimal_value_take(t, k - from);
        }
        if acc > (9223372036854775807u64 - d) / 10 {
            proof {
                assert(acc * 10 + d > 9223372036854775807) by (nonlinear_arith)
                    requires
                        acc > (9223372036854775807u64 - d) / 10,
                        d <= 9,
                ;
                lemma_decimal_value_monotone(t, k - from + 1);
            }
            return None;
        }
        acc = acc * 10 + d;
        k = k + 1;
    }
    assert(t.take(to - from) =~= t);
    Some(acc as i64)
}

/// What one step of the lexer produced, in executable form.
enum StepOutcome {
    Skip(usize, usize, usize),
    Emit(Token, usize, usize, usize),
    Fail(LexErr),
}

spec fn step_agrees(r: StepOutcome, st: LexStep) -> bool {
    match (r, st) {
        (StepOutcome::Skip(i, l, c), LexStep::Skip(q)) => q == LexPos {
            i: i as nat,
            line: l as nat,
            column: c as nat,
        },
        (StepOutcome::Emit(t, i, l, c), LexStep::Emit(tv, q)) => t@ == tv && q == LexPos {
            i: i as nat,
            line: l as nat,
            column: c as nat,
        },
        (StepOutcome::Fail(e), LexStep::Fail(m)) => e.message@ == m,
        _ => false,
    }
}

spec fn outcome_bounded(r: StepOutcome, len: nat) -> bool {
    match r {
        StepOutcome::Skip(i, l, c) => i <= len && l <= i + 1 && c <= i + 1,
        StepOutcome::Emit(_, i, l, c) => i <= len && l <= i + 1 && c <= i + 1,
        StepOutcome::Fail(_) => true,
    }
}

fn lex_one(chars: &Vec<char>, i: usize, line: usize, column: usize) -> (r: StepOutcome)
    requires
        i < chars.len(),
        chars@.len() <= isize::MAX,
        line <= i + 1,
        column <= i + 1,
    ensures
        step_agrees(r, lex_step(chars@, LexPos { i: i as nat, line: line as nat, column: column as nat })),
        outcome_bounded(r, chars@.len()),
{
    let ghost s = chars@;
    let ghost p = LexPos { i: i as nat, line: line as nat, column: column as nat };
    proof {
        lemma_lex_step_progress(s, p);
    }
    let c = chars[i];
    if c == '\n' {
        return StepOutcome::Skip(i + 1, line + 1, 1);
    }
    if char_is_whitespace(c) {
        return StepOutcome::Skip(i + 1, line, column + 1);
    }
    let open = vec!['D', ':'];
    assert(open@ == comment_open());
    if starts_at_exec(chars.as_slice(), i, open.as_slice()) {
        match scan_comment(chars, i + 2, line, column + 2) {
            None => {
                return StepOutcome::Fail(LexErr::new(line, column, "unclosed comment"));
            },
            Some((j, l, col)) => {
                proof {
                    lemma_comment_end(s, i + 2);
                }
                return StepOutcome::Skip(j + 2, l, col + 2);
            },
        }
    }
    let bald = vec!['B', 'a', 'l', 'd'];
    assert(bald@ == bald_text());
    if starts_at_exec(chars.as_slice(), i, bald.as_slice()) {
        return StepOutcome::Emit(Token::new(TokenKind::Bald, line, column), i + 4, line, column + 4);
    }
    let doug = vec!['D', 'o', 'u', 'g'];
    assert(doug@ == doug_text());
    if starts_at_exec(chars.as_slice(), i, doug.as_slice()) {
        let n = count_dougs(chars, i);
        return StepOutcome::Emit(
            Token::new(TokenKind::Doug { count: n }, line, column),
            i + 4 * n,
            line,
            column + 4 * n,
        );
    }
    match find_keyword(chars, i) {
        Some(k) => {
            let kw = keyword(k);
            let kind = resolve_keyword(kw);
            proof {
                lemma_keywords();
                lemma_first_keyword(s, i as int, 0);
                assert(keyword_kind(keyword_text(k as int)) is Some);
            }
            let klen = str_chars(kw).len();
            match kind {
                Some(kind) => {
                    return StepOutcome::Emit(Token::new(kind, line, column), i + klen, line, column + klen);
                },
                None => {
                    return StepOutcome::Fail(LexErr::new(line, column, "unknown token"));
                },
            }
        },
        None => {},
    }
    if c == '"' || c == '\'' {
        match scan_string_exec(chars, i + 1, c, line, column + 1) {
            None => {
                return StepOutcome::Fail(LexErr::new(line, column, "unclosed string literal"));
            },
            Some((content, j, l, col)) => {
                let text = string_from_chars(content.as_slice());
                return StepOutcome::Emit(
                    Token::new(TokenKind::Literal(ValueLiteral::Str(text)), line, column),
                    j,
                    l,
                    col,
                );
            },
        }
    }
    if char_is_ascii_digit(c) || c == '.' {
        match scan_number_exec(chars, i + 1, c == '.') {
            Err(j) => {
                return StepOutcome::Fail(LexErr::new(line, column + (j - i), "malformed number"));
            },
            Ok((j, has_decimal)) => {
                let ghost text = s.subrange(i as int, j as int);
                if has_decimal {
                    if j - i == 1 {
                        return StepOutcome::Fail(LexErr::new(line, column, "malformed number"));
                    }
                    let mut t: Vec<char> = Vec::new();
                    let mut k = i;
                    while k < j
                        invariant
                            s == chars@,
                            i <= k <= j <= s.len(),
                            t@ == s.subrange(i as int, k as int),
                        decreases j - k,
                    {
                        t.push(chars[k]);
                        k = k + 1;
                        assert(t@ =~= s.subrange(i as int, k as int));
                    }
                    let ft = string_from_chars(t.as_slice());
                    return StepOutcome::Emit(
                        Token::new(TokenKind::Literal(ValueLiteral::Float(ft)), line, column),
                        j,
                        line,
                        column + (j - i),
                    );
                }
                proof {
                    lemma_scan_number_digits(s, i as int + 1, c == '.');
                }
                match decimal_value_exec(chars, i, j) {
                    None => {
                        return StepOutcome::Fail(LexErr::new(line, column, "malformed number"));
                    },
                    Some(v) => {
                        return StepOutcome::Emit(
                            Token::new(TokenKind::Literal(ValueLiteral::Int(v)), line, column),
                            j,
                            line,
                            column + (j - i),
                        );
                    },
                }
            },
        }
    }
    StepOutcome::Fail(LexErr::new(line, column, "unknown token"))
}

proof fn lemma_scan_number_digits(s: Seq<char>, j: int, has_decimal: bool)
    requires
        0 <= j,
    ensures
        scan_number(s, j, has_decimal) matches Ok((e, false)) ==> !has_decimal && forall|k: int|
            j <= k < e ==> is_ascii_digit(#[trigger] s[k]),
    decreases s.len() - j,
{
    if 0 <= j < s.len() && (is_ascii_digit(s[j]) || s[j] == '.') {
        if !(s[j] == '.' && has_decimal) {
            lemma_scan_number_digits(s, j + 1, has_decimal || s[j] == '.');
        }
    }
}


/// The views of a sequence of tokens.
pub open spec fn token_views(ts: Seq<Token>) -> Seq<TokenView> {
    ts.map_values(|t: Token| t@)
}

/// `ts` followed by the tokens of `r`, or the error of `r`.
pub open spec fn prepend_tokens(ts: Seq<TokenView>, r: Result<Seq<TokenView>, Seq<char>>) -> Result<
    Seq<TokenView>,
    Seq<char>,
> {
    match r {
        Ok(x) => Ok(ts + x),
        Err(m) => Err(m),
    }
}

/// Splits source text into tokens. Whitespace and `D: ... :D` comments separate tokens;
/// the first character that starts no token, or an unclosed comment or string, or a
/// malformed number, ends the run with an error naming where it was found.
pub fn lex(source: &str) -> (r: Result<Vec<Token>, LexErr>)
    ensures
        match r {
            Ok(ts) => lexed(source@) == Ok::<Seq<TokenView>, Seq<char>>(token_views(ts@)),
            Err(e) => lexed(source@) == Err::<Seq<TokenView>, Seq<char>>(e.message@),
        },
{
    let chars = str_chars(source);
    let ghost s = chars@;
    let length = chars.len();
    let mut tokens: Vec<Token> = Vec::new();
    let mut i: usize = 0;
    let mut line: usize = 1;
    let mut column: usize = 1;
    assert(token_views(tokens@) =~= Seq::<TokenView>::empty());
    assert(prepend_tokens(token_views(tokens@), lexed(s)) =~= lexed(s)) by {
        match lexed(s) {
            Ok(x) => {
                assert(Seq::<TokenView>::empty() + x =~= x);
            },
            Err(m) => {},
        }
    }
    while i < length
        invariant
            s == chars@,
            s == source@,
            s.len() == length,
            s.len() <= isize::MAX,
            i <= length,
            line <= i + 1,
            column <= i + 1,
            lexed(s) == prepend_tokens(
                token_views(tokens@),
                lex_from(s, LexPos { i: i as nat, line: line as nat, column: column as nat }),
            ),
        decreases length - i,
    {
        let ghost p = LexPos { i: i as nat, line: line as nat, column: column as nat };
        let ghost before = token_views(tokens@);
        proof {
            lemma_lex_step_progress(s, p);
        }
        match lex_one(&chars, i, line, column) {
            StepOutcome::Skip(ni, nl, nc) => {
                i = ni;
                line = nl;
                column = nc;
            },
            StepOutcome::Emit(t, ni, nl, nc) => {
                let ghost tv = t@;
                tokens.push(t);
                proof {
                    assert(token_views(tokens@) =~= before.push(tv));
                    let q = LexPos { i: ni as nat, line: nl as nat, column: nc as nat };
                    match lex_from(s, q) {
                        Ok(x) => {
                            assert(before + (seq![tv] + x) =~= before.push(tv) + x);
                        },
                        Err(m) => {},
                    }
                }
                i = ni;
                line = nl;
                column = nc;
            },
            StepOutcome::Fail(e) => {
                assert(lex_step(s, p) == LexStep::Fail(e.message@));
                assert(lex_from(s, p) == Err::<Seq<TokenView>, Seq<char>>(e.message@));
                return Err(e);
            },
        }
    }
    assert(token_views(tokens@) + Seq::<TokenView>::empty() =~= token_views(tokens@));
    Ok(tokens)
}

} // verus!
