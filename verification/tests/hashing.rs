use douglang::parser::ast::{DougChain, Expr, Reference, Stmt};
use douglang::token::ValueLiteral;
use douglang::values::value::FiveMinuteCodingAdventure;
use douglang::values::{hash_fiveminutecodingadventure, BuildFxHasher, FxHasher, HashNode, Operator};

const K: u64 = 0x517cc1b727220a95;

fn step(h: u64, bytes: &[u8]) -> u64 {
    let word = bytes.iter().take(8).fold(0u64, |acc, &b| (acc << 8) | b as u64);
    (h.rotate_left(5) ^ word).wrapping_mul(K)
}

#[test]
fn write_mixes_the_first_eight_bytes() {
    let mut h = FxHasher::new();
    assert_eq!(h.finish(), 0);
    h.write(&[1, 2]);
    assert_eq!(h.finish(), step(0, &[1, 2]));
    let before = h.finish();
    h.write(&[1, 2, 3, 4, 5, 6, 7, 8, 9, 10]);
    assert_eq!(h.finish(), step(before, &[1, 2, 3, 4, 5, 6, 7, 8]));
    assert!(h.indexes.is_empty());
}

#[test]
fn numbers_are_written_little_endian() {
    let mut a = FxHasher::new();
    a.write_usize(258);
    assert_eq!(a.finish(), step(0, &258u64.to_le_bytes()));
    let mut b = FxHasher::new();
    b.write_i32(1);
    assert_eq!(b.finish(), step(0, &1i32.to_le_bytes()));
    let mut c = FxHasher::new();
    c.write_u8(9);
    assert_eq!(c.finish(), step(0, &[9]));
}

#[test]
fn strings_hash_their_length_then_chunks() {
    let s = "Douglas Wreden!".to_string();
    let mut h = BuildFxHasher {}.build_hasher();
    s.hash_node(&mut h);
    let mut expect = step(0, &(15u64).to_le_bytes());
    expect = step(expect, b"Douglas ");
    expect = step(expect, b"Wreden!");
    assert_eq!(h.finish(), expect);
}

#[test]
fn statements_hash_their_kind_and_parts() {
    let stmt = Stmt::Doug { chains: vec![Reference::Doug(DougChain { count: 2 })], reset: true };
    let mut h = FxHasher::new();
    stmt.hash_node(&mut h);
    let mut expect = step(0, &[0]);
    expect = step(expect, &1u64.to_le_bytes());
    expect = step(expect, &[1]);
    expect = step(expect, &2u64.to_le_bytes());
    expect = step(expect, &[1]);
    assert_eq!(h.finish(), expect);

    let cond = Expr::Condition {
        left: Box::new(Expr::Literal(ValueLiteral::Int(1))),
        operator: Some(Operator::Equals),
        right: None,
    };
    let mut g = FxHasher::new();
    cond.hash_node(&mut g);
    let mut e2 = step(0, &[1, 0, 0, 0]);
    e2 = step(e2, &[1]);
    e2 = step(e2, &[5]);
    e2 = step(e2, &[0]);
    assert_eq!(g.finish(), e2);
}

#[test]
fn adventures_get_spread_out_negative_slots() {
    let body = vec![Stmt::Tts { msg: None, use_index: true, overlap: false }];
    let f = FiveMinuteCodingAdventure::new(body);
    let mut h = FxHasher::new();
    let first = hash_fiveminutecodingadventure(&f, &mut h);
    assert!(first <= -1_000 && first > -2_000_000);
    let second = hash_fiveminutecodingadventure(&f, &mut h);
    assert!(second <= -1_000 && second > -2_000_000);
    assert!((first as i64 - second as i64).abs() >= 16);
    assert_eq!(h.indexes, vec![first, second]);
}

#[test]
fn same_adventure_same_first_slot() {
    let body = vec![Stmt::Guod { value: None, use_index: true }];
    let f = FiveMinuteCodingAdventure::new(body);
    let mut a = FxHasher::new();
    let mut b = FxHasher::new();
    assert_eq!(hash_fiveminutecodingadventure(&f, &mut a), hash_fiveminutecodingadventure(&f, &mut b));
}
