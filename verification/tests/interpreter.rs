use douglang::interpreter::error::{RuntimeError as InterpreterError, RuntimeErrorKind};
use douglang::interpreter::{checked_doug_notation_index, get_doug_notation_index, AdventureNames};
use douglang::parser::ast::{DougChain, Reference};
use douglang::runtime::RuntimeError;

fn doug(count: usize) -> Reference {
    Reference::Doug(DougChain { count })
}

#[test]
fn names_hold_the_latest_slot() {
    let mut names = AdventureNames::new();
    assert_eq!(names.get("add"), None);
    names.insert("add".to_string(), -5000);
    names.insert("sub".to_string(), -7000);
    assert_eq!(names.get("add"), Some(-5000));
    names.insert("add".to_string(), -6000);
    assert_eq!(names.get("add"), Some(-6000));
    assert_eq!(names.get("sub"), Some(-7000));
}

#[test]
fn a_single_chain_moves_by_a_power_of_two() {
    let names = AdventureNames::new();
    assert_eq!(get_doug_notation_index(&names, &[doug(3)], 0).unwrap(), (4, false));
    assert_eq!(get_doug_notation_index(&names, &[doug(1)], 10).unwrap(), (11, false));
}

#[test]
fn later_chains_alternate_back_and_forth() {
    let names = AdventureNames::new();
    assert_eq!(get_doug_notation_index(&names, &[doug(1), doug(2)], 0).unwrap(), (-1, false));
    assert_eq!(get_doug_notation_index(&names, &[doug(1), doug(2), doug(3)], 0).unwrap(), (3, false));
}

#[test]
fn an_empty_reference_doubles_the_cursor() {
    let names = AdventureNames::new();
    assert_eq!(get_doug_notation_index(&names, &[], 5).unwrap(), (10, false));
}

#[test]
fn a_name_starts_from_its_slot_on_the_main_tape() {
    let mut names = AdventureNames::new();
    names.insert("add".to_string(), -5000);
    let r = get_doug_notation_index(&names, &[Reference::Variable("add".to_string()), doug(1), doug(2)], 3).unwrap();
    assert_eq!(r, (-5001, true));
}

#[test]
fn unknown_names_and_late_names_are_errors() {
    let names = AdventureNames::new();
    assert_eq!(
        get_doug_notation_index(&names, &[Reference::Variable("x".to_string())], 0),
        Err(RuntimeError::NotDefined("x".to_string()))
    );
    assert_eq!(
        get_doug_notation_index(&names, &[doug(1), Reference::Variable("x".to_string())], 0),
        Err(RuntimeError::Unexpected("variable name".to_string()))
    );
}

#[test]
fn chains_that_cannot_be_computed_are_refused() {
    let names = AdventureNames::new();
    assert!(checked_doug_notation_index(&names, &[doug(0)], 0).is_none());
    assert!(checked_doug_notation_index(&names, &[doug(33)], 0).is_none());
    assert!(checked_doug_notation_index(&names, &[doug(31)], i32::MAX).is_none());
    assert_eq!(checked_doug_notation_index(&names, &[doug(32)], 0), Some(Ok((i32::MIN, false))));
}

#[test]
fn interpreter_errors_carry_their_messages() {
    let e = InterpreterError::doug_index_overflow(40);
    assert_eq!(e.kind, RuntimeErrorKind::DougIndexOverflow { count: 40 });
    assert_eq!(e.message, "Doug chain of length 40 is too large to index safely");
    assert_eq!(InterpreterError::division_by_zero().message, "division by zero");
    assert_eq!(InterpreterError::modulo_by_zero().message, "modulo by zero");
    assert_eq!(InterpreterError::break_outside_loop().message, "guoD can only be used inside loop");
    let w = InterpreterError::invalid_tape_write(-3, 0);
    assert_eq!(w.message, "invalid tape write at index -3; next writable index is 0");
    let f = InterpreterError::new("boom");
    assert_eq!(f.kind, RuntimeErrorKind::Ffi("boom".to_string()));
}

#[test]
fn interpreter_error_is_shown_as_its_message() {
    assert_eq!(InterpreterError::division_by_zero().text(), "division by zero");
    assert_eq!(
        InterpreterError::invalid_tape_write(-3, 0).text(),
        "invalid tape write at index -3; next writable index is 0"
    );
    assert_eq!(InterpreterError::new("boom").text(), "boom");
}
