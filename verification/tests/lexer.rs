use douglang::lexer::lex;
use douglang::token::{Span, Token, TokenKind, ValueLiteral};

fn kinds(src: &str) -> Vec<TokenKind> {
    lex(src).unwrap().into_iter().map(|t| t.kind).collect()
}

#[test]
fn doug_runs_become_one_chain() {
    assert_eq!(kinds("DougDougDoug Doug"), vec![TokenKind::Doug { count: 3 }, TokenKind::Doug { count: 1 }]);
}

#[test]
fn keywords_and_operators() {
    assert_eq!(
        kinds("Bald set +set -set *set /set %set tts ttss loop guoD Rigged prediction Believers Doubters win"),
        vec![
            TokenKind::Bald,
            TokenKind::Assign,
            TokenKind::AddSet,
            TokenKind::SubSet,
            TokenKind::MulSet,
            TokenKind::DivSet,
            TokenKind::ModSet,
            TokenKind::Tts,
            TokenKind::Ttss,
            TokenKind::Loop,
            TokenKind::Guod,
            TokenKind::Rigged,
            TokenKind::Prediction,
            TokenKind::Believers,
            TokenKind::Doubters,
            TokenKind::Win,
        ]
    );
    assert_eq!(
        kinds("( ) [ ] = != > >= < <="),
        vec![
            TokenKind::LParen,
            TokenKind::RParen,
            TokenKind::LSquare,
            TokenKind::RSquare,
            TokenKind::ComparisonEqual,
            TokenKind::ComparisonNotEqual,
            TokenKind::ComparisonGreater,
            TokenKind::ComparisonGreaterEqual,
            TokenKind::ComparisonLess,
            TokenKind::ComparisonLessEqual,
        ]
    );
}

#[test]
fn literals_and_positions() {
    let tokens = lex("set 42\n  \"hi\\\"x\" 1.50 'q'").unwrap();
    assert_eq!(tokens[0], Token::new(TokenKind::Assign, 1, 1));
    assert_eq!(tokens[1], Token::new(TokenKind::Literal(ValueLiteral::Int(42)), 1, 5));
    assert_eq!(tokens[2].kind, TokenKind::Literal(ValueLiteral::Str("hi\\\"x".to_string())));
    assert_eq!(tokens[2].span, Span::new(2, 3));
    assert_eq!(tokens[3].kind, TokenKind::Literal(ValueLiteral::Float("1.50".to_string())));
    assert_eq!(tokens[4].kind, TokenKind::Literal(ValueLiteral::Str("q".to_string())));
}

#[test]
fn comments_are_skipped() {
    assert_eq!(kinds("D: a\ncomment :D tts"), vec![TokenKind::Tts]);
}

#[test]
fn lexing_errors_name_their_position() {
    assert_eq!(lex("tts @").unwrap_err().message, "You are literally trolling. unknown token on line 1, column 5");
    assert_eq!(lex("D: open").unwrap_err().message, "You are literally trolling. unclosed comment on line 1, column 1");
    assert_eq!(lex("\n \"open").unwrap_err().message, "You are literally trolling. unclosed string literal on line 2, column 2");
    assert_eq!(lex("1.2.3").unwrap_err().message, "You are literally trolling. malformed number on line 1, column 4");
}

#[test]
fn token_spans_come_in_reading_order() {
    let tokens = lex("Doug set 1\n  Bald D: c\nc :D tts \"a\nb\" 2").unwrap();
    for pair in tokens.windows(2) {
        let (a, b) = (&pair[0].span, &pair[1].span);
        assert!(a.line < b.line || (a.line == b.line && a.column < b.column));
    }
    assert_eq!(tokens.len(), 7);
}
