use douglang::compiler::Compiler;
use douglang::lexer::lex;
use douglang::parser::Parser;
use douglang::runtime::{
    doug_index_overflow_message, escape_tts_state_text, ffi_signature, format_tts_state, parse_tts_state,
    unescape_tts_state_text, FfiArgKind, FfiReturnKind, RuntimeError,
};

fn parse_file_state(raw: &str) -> Option<(String, f64, bool)> {
    parse_tts_state(raw).map(|state| {
        let amplitude = state.amplitude.and_then(|a| a.parse::<f64>().ok()).unwrap_or(0.0);
        (state.text, amplitude, state.speaking)
    })
}

#[test]
fn file_state_parses_structured_idle_and_speaking() {
    assert_eq!(
        parse_file_state("TEXT|hello\\p Doug\\nline\nAMP|0\nSPEAKING|0\n"),
        Some(("hello| Doug\nline".to_string(), 0.0, false))
    );
    assert_eq!(
        parse_file_state("TEXT|talking\nAMP|0.5\nSPEAKING|1\n"),
        Some(("talking".to_string(), 0.5, true))
    );
    assert_eq!(parse_file_state("__DOUGLANG_DONE__"), None);
}

#[test]
fn unstructured_state_is_all_text() {
    let s = parse_tts_state("just words").unwrap();
    assert_eq!(s.text, "just words");
    assert_eq!(s.amplitude, None);
    assert!(!s.speaking);
}

#[test]
fn escaping_round_trips() {
    let text = "a|b\\c\nd";
    let escaped = escape_tts_state_text(text);
    assert_eq!(escaped, "a\\pb\\\\c\\nd");
    assert_eq!(unescape_tts_state_text(&escaped), text);
    assert_eq!(unescape_tts_state_text("\\x\\"), "\\x\\");
}

#[test]
fn state_round_trips_through_the_file_format() {
    let raw = format_tts_state("hi | there\nyou", "0.5", true);
    assert_eq!(raw, "TEXT|hi \\p there\\nyou\nAMP|0.5\nSPEAKING|1\n");
    let back = parse_tts_state(&raw).unwrap();
    assert_eq!(back.text, "hi | there\nyou");
    assert_eq!(back.amplitude, Some("0.5".to_string()));
    assert!(back.speaking);
}

#[test]
fn ffi_signatures_follow_the_function_name() {
    let puts = ffi_signature("puts", 1);
    assert_eq!(puts.return_kind, FfiReturnKind::Int);
    assert_eq!(puts.arg_kinds, vec![FfiArgKind::String]);
    let sleep = ffi_signature("Sleep", 2);
    assert_eq!(sleep.return_kind, FfiReturnKind::UInt);
    assert_eq!(sleep.arg_kinds, vec![FfiArgKind::UInt, FfiArgKind::UInt]);
    let other = ffi_signature("sqrt", 0);
    assert_eq!(other.return_kind, FfiReturnKind::Double);
    assert!(other.arg_kinds.is_empty());
}

#[test]
fn runtime_errors_have_their_messages() {
    assert_eq!(doug_index_overflow_message(40), "Doug chain of length 40 is too large to index safely");
    assert_eq!(RuntimeError::new("oops".to_string()), RuntimeError::Unexpected("oops".to_string()));
    assert_eq!(RuntimeError::OutOfRange(-3).message(), "Value -3 is out of range of Tape");
    assert_eq!(RuntimeError::SyntaxError("x".to_string()).message(), "Syntax error: x");
    assert_eq!(RuntimeError::NotAFunction.message(), "Attempting to call what is not a function");
}

fn compile_src(source: &str) -> String {
    let tokens = lex(source).unwrap();
    assert!(!tokens.is_empty());
    let mut parser = Parser::new();
    parser.set_source(source).unwrap();
    let ast = parser.parse().unwrap();
    let mut compiler = Compiler::new(Some("C:\\fake path\\douglang.exe".to_string()), source.to_string(), Vec::new());
    compiler.compile(&ast, &[]).unwrap()
}

#[test]
fn generated_artifact_is_rust_runtime_launcher() {
    let c = compile_src("Bald set 1 tts");
    assert!(c.contains("--run-source-helper"));
    assert!(c.contains("DOUGLANG_SOURCE"));
    assert!(c.contains("DOUGLANG_HELPER_PATH"));
    assert!(!c.contains("static DougValue dv_add"));
    assert!(!c.contains("static long long dv_doug_index"));
}

#[test]
fn compiling_needs_the_helper_path() {
    let mut compiler = Compiler::new(None, "tts".to_string(), Vec::new());
    let e = compiler.compile(&[], &[]).unwrap_err();
    assert_eq!(e.message, "compiled launcher generation needs the douglang executable path");
}

#[test]
fn launcher_escapes_the_program_text() {
    let c = compile_src("tts \"a\\\"b\"");
    assert!(c.contains("\\\""));
    assert!(c.contains("fake path"));
}
