use douglang::interpreter::step::{block_step, read_target, step, ActiveTape, Body, Fault, Flow, InterpState, StepAction, StepEvent};
use douglang::parser::ast::{DougChain, Expr, Reference, Stmt};
use douglang::runtime::RuntimeError;
use douglang::token::ValueLiteral;
use douglang::values::tape::{Memory, MutatorView};
use douglang::values::{Operator, Value};

fn doug(count: usize) -> Reference {
    Reference::Doug(DougChain { count })
}

fn lit(s: &str) -> Expr {
    Expr::Literal(ValueLiteral::Str(s.to_string()))
}

#[test]
fn assignment_stores_the_evaluated_value_under_the_cursor() {
    let mut mem = Memory::new();
    let mut view = MutatorView::new(&mut mem);
    let mut state = InterpState::new();
    let node = Stmt::Assign { value: lit("Doug"), oper: None };
    assert!(matches!(step(&mut state, &mut view, &node, StepEvent::Start), Ok(StepAction::Evaluate)));
    let done = step(&mut state, &mut view, &node, StepEvent::Evaluated(Ok(Value::String("Doug".to_string()))));
    assert!(matches!(done, Ok(StepAction::Finish(Flow::Continue))));
    assert_eq!(state.main.get(0, &view).unwrap(), Value::String("Doug".to_string()));
}

#[test]
fn compound_assignment_hands_over_the_current_cell() {
    let mut mem = Memory::new();
    let mut view = MutatorView::new(&mut mem);
    let mut state = InterpState::new();
    let node = Stmt::Assign { value: lit("!"), oper: Some(Operator::Plus) };
    match step(&mut state, &mut view, &node, StepEvent::Start) {
        Ok(StepAction::Combine { left, op }) => {
            assert_eq!(left, Value::Number(0));
            assert_eq!(op, Operator::Plus);
        }
        _ => panic!("expected a request to combine"),
    }
}

#[test]
fn failed_evaluation_is_passed_on() {
    let mut mem = Memory::new();
    let mut view = MutatorView::new(&mut mem);
    let mut state = InterpState::new();
    let node = Stmt::Expr(lit("x"));
    let r = step(&mut state, &mut view, &node, StepEvent::Evaluated(Err(RuntimeError::NotAFunction)));
    assert!(matches!(r, Err(RuntimeError::NotAFunction)));
}

#[test]
fn doug_reference_moves_the_cursor() {
    let mut mem = Memory::new();
    let mut view = MutatorView::new(&mut mem);
    let mut state = InterpState::new();
    let node = Stmt::Doug { chains: vec![doug(3), doug(1)], reset: false };
    assert!(matches!(step(&mut state, &mut view, &node, StepEvent::Start), Ok(StepAction::Finish(Flow::Continue))));
    assert_eq!(state.main.cursor, 3);
    let reset = Stmt::Doug { chains: vec![doug(2)], reset: true };
    step(&mut state, &mut view, &reset, StepEvent::Start).unwrap();
    assert_eq!(state.main.cursor, 2);
}

#[test]
fn unknown_adventure_name_is_not_defined() {
    let mut mem = Memory::new();
    let mut view = MutatorView::new(&mut mem);
    let mut state = InterpState::new();
    let node = Stmt::Doug { chains: vec![Reference::Variable("add".to_string())], reset: false };
    let r = step(&mut state, &mut view, &node, StepEvent::Start);
    assert!(matches!(r, Err(RuntimeError::NotDefined(n)) if n == "add"));
}

#[test]
fn loop_runs_its_body_until_guod() {
    let mut mem = Memory::new();
    let mut view = MutatorView::new(&mut mem);
    let mut state = InterpState::new();
    let node = Stmt::Loop { body: vec![] };
    assert!(matches!(step(&mut state, &mut view, &node, StepEvent::Start), Ok(StepAction::RunBody(Body::Loop))));
    let again = step(&mut state, &mut view, &node, StepEvent::Ran(Flow::Continue));
    assert!(matches!(again, Ok(StepAction::RunBody(Body::Loop))));
    let ended = step(&mut state, &mut view, &node, StepEvent::Ran(Flow::Return(Value::Nil)));
    assert!(matches!(ended, Ok(StepAction::Finish(Flow::Continue))));
}

#[test]
fn prediction_runs_the_side_that_won() {
    let mut mem = Memory::new();
    let mut view = MutatorView::new(&mut mem);
    let mut state = InterpState::new();
    let node = Stmt::Prediction { believe_body: vec![], doubt_body: vec![], condition: lit("c") };
    let yes = step(&mut state, &mut view, &node, StepEvent::Evaluated(Ok(Value::Boolean(true))));
    assert!(matches!(yes, Ok(StepAction::RunBody(Body::Believers))));
    let no = step(&mut state, &mut view, &node, StepEvent::Evaluated(Ok(Value::Number(0))));
    assert!(matches!(no, Ok(StepAction::RunBody(Body::Doubters))));
    let back = step(&mut state, &mut view, &node, StepEvent::Ran(Flow::Return(Value::Boolean(true))));
    assert!(matches!(back, Ok(StepAction::Finish(Flow::Return(Value::Boolean(true))))));
}

#[test]
fn guod_returns_the_current_cell_or_nil_on_failure() {
    let mut mem = Memory::new();
    let mut view = MutatorView::new(&mut mem);
    let mut state = InterpState::new();
    let here = Stmt::Guod { value: None, use_index: true };
    let r = step(&mut state, &mut view, &here, StepEvent::Start);
    assert!(matches!(r, Ok(StepAction::Finish(Flow::Return(Value::Number(0))))));
    let expr = Stmt::Guod { value: Some(lit("x")), use_index: false };
    let r = step(&mut state, &mut view, &expr, StepEvent::Evaluated(Err(RuntimeError::NotAFunction)));
    assert!(matches!(r, Ok(StepAction::Finish(Flow::Return(Value::Nil)))));
}

#[test]
fn defined_adventure_is_stored_at_the_cursor_and_called_by_name() {
    let mut mem = Memory::new();
    let mut view = MutatorView::new(&mut mem);
    let mut state = InterpState::new();
    state.main.set_cursor(5);
    let body = vec![Stmt::Guod { value: None, use_index: true }];
    let def = Stmt::FiveMinuteCodingAdventure { name: "add".to_string(), body };
    step(&mut state, &mut view, &def, StepEvent::Start).unwrap();
    assert_eq!(state.names.get("add"), Some(5));
    assert_eq!(state.main.cursor, 5);
    let call = Stmt::Call { name: Some("add".to_string()), use_index: false };
    match step(&mut state, &mut view, &call, StepEvent::Start) {
        Ok(StepAction::RunAdventure { adventure, index }) => {
            assert_eq!(index, 5);
            assert_eq!(adventure.get_nodes().len(), 1);
        }
        _ => panic!("expected the adventure to run"),
    }
    assert_eq!(state.active, ActiveTape::Scoped);
    let end = step(&mut state, &mut view, &call, StepEvent::Ran(Flow::Continue));
    assert!(matches!(end, Ok(StepAction::Finish(Flow::Continue))));
    assert_eq!(state.active, ActiveTape::Main);
    assert!(state.scoped.is_none());
}

#[test]
fn calling_a_plain_cell_is_refused() {
    let mut mem = Memory::new();
    let mut view = MutatorView::new(&mut mem);
    let mut state = InterpState::new();
    let call = Stmt::Call { name: None, use_index: true };
    let r = step(&mut state, &mut view, &call, StepEvent::Start);
    assert!(matches!(r, Ok(StepAction::NotAnAdventure(Value::Number(0)))));
    let missing = Stmt::Call { name: None, use_index: false };
    let r = step(&mut state, &mut view, &missing, StepEvent::Start);
    assert!(matches!(r, Ok(StepAction::Abort(Fault::MissingValue))));
}

#[test]
fn tts_speaks_the_cell_or_the_message() {
    let mut mem = Memory::new();
    let mut view = MutatorView::new(&mut mem);
    let mut state = InterpState::new();
    let cell = Stmt::Tts { msg: None, use_index: true, overlap: true };
    let r = step(&mut state, &mut view, &cell, StepEvent::Start);
    assert!(matches!(r, Ok(StepAction::Speak { text: Value::Number(0), overlap: true })));
    let msg = Stmt::Tts { msg: Some(lit("hi")), use_index: false, overlap: false };
    assert!(matches!(step(&mut state, &mut view, &msg, StepEvent::Start), Ok(StepAction::Evaluate)));
}

#[test]
fn adventure_defined_inside_a_call_is_stored_on_the_scoped_tape() {
    let mut mem = Memory::new();
    let mut view = MutatorView::new(&mut mem);
    let mut state = InterpState::new();
    state.main.set_cursor(5);
    let def = Stmt::FiveMinuteCodingAdventure { name: "outer".to_string(), body: vec![] };
    step(&mut state, &mut view, &def, StepEvent::Start).unwrap();
    let call = Stmt::Call { name: Some("outer".to_string()), use_index: false };
    assert!(matches!(step(&mut state, &mut view, &call, StepEvent::Start), Ok(StepAction::RunAdventure { .. })));
    let inner = Stmt::FiveMinuteCodingAdventure { name: "inner".to_string(), body: vec![] };
    assert!(matches!(step(&mut state, &mut view, &inner, StepEvent::Start), Ok(StepAction::Finish(Flow::Continue))));
    assert_eq!(state.names.get("inner"), Some(0));
    let scoped = state.scoped.as_ref().unwrap();
    assert!(matches!(scoped.get(0, &view).unwrap(), Value::FiveMinuteCodingAdventure(_)));
    assert!(matches!(state.main.get(0, &view).unwrap(), Value::Number(0)));
}

#[test]
fn read_target_counts_from_the_cursor_or_the_name() {
    let mut mem = Memory::new();
    let mut view = MutatorView::new(&mut mem);
    let mut state = InterpState::new();
    state.main.set_cursor(4);
    let r = read_target(&state, &[doug(2)]);
    assert!(matches!(r, Some(Ok((6, false)))));
    let def = Stmt::FiveMinuteCodingAdventure { name: "add".to_string(), body: vec![] };
    step(&mut state, &mut view, &def, StepEvent::Start).unwrap();
    let r = read_target(&state, &[Reference::Variable("add".to_string()), doug(1)]);
    assert!(matches!(r, Some(Ok((5, true)))));
}

#[test]
fn a_block_goes_on_only_after_continue() {
    assert!(block_step(Flow::Continue).is_none());
    assert!(matches!(block_step(Flow::Break), Some(Flow::Break)));
    assert!(matches!(block_step(Flow::Return(Value::Nil)), Some(Flow::Return(Value::Nil))));
}
