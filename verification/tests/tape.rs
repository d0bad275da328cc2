use douglang::parser::ast::Stmt;
use douglang::runtime::RuntimeError;
use douglang::values::tape::{
    literal_token, HeapObject, Memory, MutatorView, RuntimeTape, SizeClass, Space, Tape, TaggedPtr, TapeMap,
};
use douglang::values::value::{FiveMinuteCodingAdventure, Text};
use douglang::values::Value;

#[test]
fn size_classes_follow_line_and_block_sizes() {
    assert_eq!(SizeClass::get_for_size(0), SizeClass::Small);
    assert_eq!(SizeClass::get_for_size(128), SizeClass::Small);
    assert_eq!(SizeClass::get_for_size(129), SizeClass::Medium);
    assert_eq!(SizeClass::get_for_size(32768), SizeClass::Medium);
    assert_eq!(SizeClass::get_for_size(32769), SizeClass::Large);
}

#[test]
fn read_after_write_gives_the_value_back() {
    let mut mem = Memory::new();
    let mut view = MutatorView::new(&mut mem);
    let mut tape = RuntimeTape::new();
    let bits = 2.5f64.to_bits();
    tape.set_value(&mut view, Value::Number(bits)).unwrap();
    assert_eq!(tape.get_current(&view).unwrap(), Value::Number(bits));
    tape.set_value(&mut view, Value::String("Doug".to_string())).unwrap();
    assert_eq!(tape.get_current(&view).unwrap(), Value::String("Doug".to_string()));
    tape.set_value(&mut view, Value::Boolean(true)).unwrap();
    assert_eq!(tape.get(0, &view).unwrap(), Value::Boolean(true));
    tape.set_value(&mut view, Value::Nil).unwrap();
    assert_eq!(tape.get(0, &view).unwrap(), Value::Nil);
}

#[test]
fn errors_are_stored_as_their_message() {
    let mut mem = Memory::new();
    let mut view = MutatorView::new(&mut mem);
    let mut tape = RuntimeTape::new();
    tape.set_value(&mut view, Value::Error(RuntimeError::NotDefined("x".to_string()))).unwrap();
    assert_eq!(tape.get_current(&view).unwrap(), Value::String("x is not defined".to_string()));
}

#[test]
fn unwritten_cells_read_zero_and_writes_stay_in_their_cell() {
    let mut mem = Memory::new();
    let mut view = MutatorView::new(&mut mem);
    let mut tape = RuntimeTape::new();
    tape.set_value(&mut view, Value::Boolean(true)).unwrap();
    tape.move_cursor(-3);
    assert_eq!(tape.cursor, -3);
    assert_eq!(tape.get_current(&view).unwrap(), Value::Number(0));
    tape.set_value(&mut view, Value::Boolean(false)).unwrap();
    assert_eq!(tape.get(-3, &view).unwrap(), Value::Boolean(false));
    assert_eq!(tape.get(0, &view).unwrap(), Value::Boolean(true));
    assert_eq!(tape.get(3, &view).unwrap(), Value::Number(0));
    assert_eq!(tape.get(2, &view).unwrap(), Value::Number(0));
    tape.set_cursor(7);
    assert_eq!(tape.cursor, 7);
}

#[test]
fn clone_into_copies_a_window_to_the_start() {
    let mut mem = Memory::new();
    let mut view = MutatorView::new(&mut mem);
    let mut tape = RuntimeTape::new();
    tape.set_cursor(5);
    tape.set_value(&mut view, Value::Boolean(true)).unwrap();
    tape.set_cursor(6);
    tape.set_value(&mut view, Value::String("a".to_string())).unwrap();
    tape.set_cursor(40);
    tape.set_value(&mut view, Value::Boolean(false)).unwrap();
    let copy = tape.clone_into(5, 16);
    assert_eq!(copy.cursor, 0);
    assert_eq!(copy.get(0, &view).unwrap(), Value::Boolean(true));
    assert_eq!(copy.get(1, &view).unwrap(), Value::String("a".to_string()));
    assert_eq!(copy.get(35, &view).unwrap(), Value::Number(0));
    assert_eq!(copy.get(-1, &view).unwrap(), Value::Number(0));
}

#[test]
fn get_values_lists_the_window_then_the_right_half() {
    let mut mem = Memory::new();
    let mut view = MutatorView::new(&mut mem);
    let mut tape = RuntimeTape::new();
    tape.set_cursor(2);
    tape.set_value(&mut view, Value::Nil).unwrap();
    tape.set_cursor(-1);
    tape.set_value(&mut view, Value::Nil).unwrap();
    let all = tape.get_values(None);
    assert_eq!(all.len(), 1);
    assert_eq!(all[0].0, 2);
    let centered = tape.get_values(Some(-1));
    assert_eq!(centered.len(), 2);
    assert_eq!(centered[0].0, 0);
    assert_eq!(centered[1].0, 2);
}

#[test]
fn right_half_is_listed_by_ascending_key() {
    let mut mem = Memory::new();
    let mut view = MutatorView::new(&mut mem);
    let mut tape = RuntimeTape::new();
    for idx in [40, 3, 17, 0, 25, 9] {
        tape.set_cursor(idx);
        tape.set_value(&mut view, Value::Nil).unwrap();
    }
    let keys: Vec<u32> = tape.get_values(None).iter().map(|c| c.0).collect();
    assert_eq!(keys, vec![0, 3, 9, 17, 25, 40]);
    let centered: Vec<u32> = tape.get_values(Some(2)).iter().map(|c| c.0).collect();
    assert_eq!(centered, vec![3, 9, 17, 0, 3, 9, 17, 25, 40]);
}

#[test]
fn literal_tokens_are_read_from_their_start() {
    assert_eq!(literal_token("\"hi\" rest"), Some("hi".to_string()));
    assert_eq!(literal_token("12.5abc"), Some("12.5".to_string()));
    assert_eq!(literal_token("\"open"), None);
    assert_eq!(literal_token("abc"), None);
    assert_eq!(literal_token(""), None);
}

#[test]
fn literals_are_allocated_as_numbers_or_text() {
    let mut mem = Memory::new();
    let mut view = MutatorView::new(&mut mem);
    let bits = 12.5f64.to_bits();
    let n = view.alloc_literal("12.5abc".to_string(), Some(bits)).unwrap();
    assert_eq!(n.ptr, TaggedPtr { space: Space::Literals, index: 0 });
    assert_eq!(view.read(n.ptr), Some(Value::Number(bits)));
    let s = view.alloc_literal("\"hi\"".to_string(), None).unwrap();
    assert_eq!(s.ptr, TaggedPtr { space: Space::Heap, index: 0 });
    assert_eq!(view.read(s.ptr), Some(Value::String("hi".to_string())));
    assert!(view.alloc_literal("nope".to_string(), None).is_none());
    assert_eq!(view.read(TaggedPtr { space: Space::Heap, index: 9 }), None);
}

#[test]
fn tape_stores_and_reads_cells_of_a_map() {
    let mut tape = Tape::new();
    let mut map = TapeMap::new();
    assert_eq!(tape.get_value(4, &map), None);
    tape.upsert_value(4, Value::Number(7), &mut map).unwrap();
    assert_eq!(tape.get_value(4, &map), Some(Value::Number(7)));
    tape.upsert_value(4, Value::Boolean(true), &mut map).unwrap();
    assert_eq!(tape.get_value(4, &map), Some(Value::Boolean(true)));
}

#[test]
fn adventures_are_stored_whole() {
    let mut mem = Memory::new();
    let mut view = MutatorView::new(&mut mem);
    let body = vec![Stmt::Tts { msg: None, use_index: true, overlap: false }];
    let p = view.alloc_object(HeapObject::FiveMinuteCodingAdventure(FiveMinuteCodingAdventure::new(body))).unwrap();
    match view.read(p) {
        Some(Value::FiveMinuteCodingAdventure(f)) => assert_eq!(f.get_nodes().len(), 1),
        other => panic!("expected an adventure, got {:?}", other),
    }
    let q = view.alloc_tagged(HeapObject::Text(Text::from_string("t".to_string()))).unwrap();
    assert_eq!(q.index, 1);
}
