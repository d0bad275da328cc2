use douglang::lexer::lex;
use douglang::parser::ast::{DougChain, Expr, Reference, Stmt};
use douglang::parser::{Parser, SyntaxError};
use douglang::runtime::RuntimeError;
use douglang::token::ValueLiteral;
use douglang::values::tape::{Memory, MutatorView};
use douglang::values::tape::Mutator;
use douglang::values::Operator;

fn parse(source: &str) -> Result<Vec<Stmt>, SyntaxError> {
    let mut p = Parser::new();
    p.set_source(source)?;
    p.parse()
}

fn text(s: &str) -> Expr {
    Expr::Literal(ValueLiteral::Str(s.to_string()))
}

fn doug(count: usize) -> Reference {
    Reference::Doug(DougChain { count })
}

#[test]
fn assignments_chain_after_a_cell_reference() {
    let ast = parse("Bald set \"Laundry in \" +set (Doug) +set \".\" tts").unwrap();
    assert_eq!(
        ast,
        vec![
            Stmt::Doug { chains: vec![], reset: true },
            Stmt::Assign { value: text("Laundry in "), oper: None },
            Stmt::Assign { value: Expr::DougSequence { chains: vec![doug(1)] }, oper: Some(Operator::Plus) },
            Stmt::Assign { value: text("."), oper: Some(Operator::Plus) },
            Stmt::Tts { msg: None, use_index: true, overlap: false },
        ]
    );
}

#[test]
fn tts_at_end_of_line_speaks_the_cell() {
    let ast = parse("tts\ntts \"hi\"\nttss").unwrap();
    assert_eq!(
        ast,
        vec![
            Stmt::Tts { msg: None, use_index: true, overlap: false },
            Stmt::Tts { msg: Some(text("hi")), use_index: false, overlap: false },
            Stmt::Tts { msg: None, use_index: true, overlap: true },
        ]
    );
}

#[test]
fn loop_with_guod_parses_its_body() {
    let src = "loop [\n    tts \"What is my purpose? Just to loop? Forever?\"\n    guoD D: Oh, thank you. :D\n]\n";
    let ast = parse(src).unwrap();
    assert_eq!(
        ast,
        vec![Stmt::Loop {
            body: vec![
                Stmt::Tts { msg: Some(text("What is my purpose? Just to loop? Forever?")), use_index: false, overlap: false },
                Stmt::Guod { value: None, use_index: true },
            ],
        }]
    );
}

#[test]
fn prediction_with_believers_arm() {
    let src = "prediction (Doug) = \"Douglas Wreden\" [\n    Believers win [\n        tts \"Hey Doug\"\n    ]\n]\n";
    let ast = parse(src).unwrap();
    assert_eq!(
        ast,
        vec![Stmt::Prediction {
            believe_body: vec![Stmt::Tts { msg: Some(text("Hey Doug")), use_index: false, overlap: false }],
            doubt_body: vec![],
            condition: Expr::Condition {
                left: Box::new(Expr::DougSequence { chains: vec![doug(1)] }),
                operator: Some(Operator::Equals),
                right: Some(Box::new(text("Douglas Wreden"))),
            },
        }]
    );
}

#[test]
fn laundry_alarm_example_parses() {
    let src = "D: Laundry alarm :D\nDoug set 5\nloop [\n    Bald set \"Laundry in \" +set (Doug) +set \".\" tts\n    Doug -set 1\n    prediction (Doug) = 0 [\n        Believers win [\n            guoD\n        ]\n    ]\n]\ntts \"LAUNDRY!!!!!!!\" \n";
    let ast = parse(src).unwrap();
    assert_eq!(ast.len(), 4);
    assert_eq!(ast[0], Stmt::Doug { chains: vec![doug(1)], reset: false });
    assert_eq!(ast[1], Stmt::Assign { value: Expr::Literal(ValueLiteral::Int(5)), oper: None });
    match &ast[2] {
        Stmt::Loop { body } => {
            assert_eq!(body.len(), 8);
            assert_eq!(body[5], Stmt::Doug { chains: vec![doug(1)], reset: false });
            assert_eq!(body[6], Stmt::Assign { value: Expr::Literal(ValueLiteral::Int(1)), oper: Some(Operator::Minus) });
            match &body[7] {
                Stmt::Prediction { believe_body, doubt_body, .. } => {
                    assert_eq!(believe_body, &vec![Stmt::Guod { value: None, use_index: true }]);
                    assert!(doubt_body.is_empty());
                }
                other => panic!("expected a prediction, got {:?}", other),
            }
        }
        other => panic!("expected a loop, got {:?}", other),
    }
    assert_eq!(ast[3], Stmt::Tts { msg: Some(text("LAUNDRY!!!!!!!")), use_index: false, overlap: false });
}

#[test]
fn doug_chains_merge_on_a_line() {
    let ast = parse("DougDougDoug Doug set 2").unwrap();
    assert_eq!(
        ast,
        vec![
            Stmt::Doug { chains: vec![doug(3), doug(1)], reset: false },
            Stmt::Assign { value: Expr::Literal(ValueLiteral::Int(2)), oper: None },
        ]
    );
}

#[test]
fn parenthesised_reference_resets() {
    let ast = parse("(DougDoug Doug)").unwrap();
    assert_eq!(ast, vec![Stmt::Doug { chains: vec![doug(2), doug(1)], reset: true }]);
}

#[test]
fn unclosed_block_is_an_error() {
    let e = parse("loop [").unwrap_err();
    assert_eq!(e, SyntaxError::Expected("]".to_string(), String::new(), 4, 0));
    assert_eq!(e.message(), "Expected `]` got `` at r:4,c:0");
}

#[test]
fn closing_bracket_at_top_level_is_an_error() {
    let e = parse("]").unwrap_err();
    assert_eq!(e, SyntaxError::Unexpected("] in top level".to_string(), 2, 0));
    assert_eq!(e.message(), "Unexpected `] in top level` at r:2,c:0");
}

#[test]
fn stray_token_is_unexpected() {
    let e = parse("Doug set 1\nwin").unwrap_err();
    assert_eq!(e, SyntaxError::Unexpected("win".to_string(), 3, 0));
}

#[test]
fn loop_needs_a_bracket() {
    let e = parse("loop tts").unwrap_err();
    assert_eq!(e, SyntaxError::Expected("[".to_string(), "tts".to_string(), 2, 1));
}

#[test]
fn prediction_arms_must_be_named() {
    let e = parse("prediction 1 [\nwin\n]").unwrap_err();
    assert_eq!(e, SyntaxError::Expected("believers, doubters, ]".to_string(), "win".to_string(), 3, 0));
}

#[test]
fn set_without_value_breaks_the_expression() {
    let e = parse("set").unwrap_err();
    assert_eq!(e, SyntaxError::BreakFromExprTree);
    assert_eq!(e.message(), "Breaking from expression tree");
}

#[test]
fn compound_assignment_needs_set() {
    let e = parse("= tts").unwrap_err();
    assert_eq!(e, SyntaxError::Expected("set, operator".to_string(), "tts".to_string(), 2, 1));
}

#[test]
fn empty_program_has_no_statements() {
    assert_eq!(parse("").unwrap(), vec![]);
    assert_eq!(parse("D: nothing here :D\n\n").unwrap(), vec![]);
}

#[test]
fn nested_block_at_end_of_input_reports_the_counters() {
    let mut p = Parser::new();
    let e = p.parse_block(false).unwrap_err();
    assert_eq!(e, SyntaxError::Expected("]".to_string(), String::new(), 2, 0));
}

#[test]
fn reading_past_the_last_line_is_a_lexing_error() {
    let e = parse("loop").unwrap_err();
    assert_eq!(e, SyntaxError::Lexer("EOFReached".to_string(), 3, 0));
}

#[test]
fn lexing_error_is_reported_by_the_parser() {
    let e = parse("@").unwrap_err();
    assert_eq!(
        e,
        SyntaxError::Lexer("You are literally trolling. unknown token on line 1, column 1".to_string(), 0, 0)
    );
}

#[test]
fn parser_runs_as_a_mutator() {
    let mut mem = Memory::new();
    let mut parser = Parser::new();
    let ast = mem.mutate(&mut parser, "Bald set 1 tts".to_string()).unwrap();
    assert_eq!(ast.len(), 3);
    let err = mem.mutate(&mut parser, "]".to_string()).unwrap_err();
    assert_eq!(err, RuntimeError::SyntaxError("Unexpected `] in top level` at r:5,c:0".to_string()));
    let mut view = MutatorView::new(&mut mem);
    let again = parser.run(&mut view, "tts".to_string()).unwrap();
    assert_eq!(again, vec![Stmt::Tts { msg: None, use_index: true, overlap: false }]);
}

#[test]
fn lexer_output_feeds_the_parser() {
    let tokens = lex("Doug +set 3").unwrap();
    let expanded = douglang::parser::tokens::expand_tokens(&tokens);
    assert_eq!(expanded.len(), 4);
    assert_eq!(expanded[1].kind, douglang::parser::tokens::ParseKind::Operator(Operator::Plus));
    assert_eq!(expanded[2].kind, douglang::parser::tokens::ParseKind::Assign);
}
