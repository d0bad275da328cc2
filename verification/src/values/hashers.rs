//! Hashing of statement trees, to give each five minute coding adventure a tape slot.
//!
//! The hasher folds each write into a 64-bit state: it takes the first eight bytes of
//! the write as a big-endian word, mixes it into the state rotated left by five bits,
//! and multiplies by a fixed odd constant, wrapping. Numbers are written as their
//! little-endian bytes, as on the 64-bit little-endian targets the interpreter runs on.
use vstd::prelude::*;

use vstd::utf8::encode_utf8;
use vstd::wrapping::u64_specs::wrapping_mul;

use crate::parser::ast::{
    DougChain, Expr, ExprView, Reference, ReferenceView, Stmt, StmtView, exprs_view, references_view,
    stmts_view,
};
use crate::values::value::FiveMinuteCodingAdventure;
use crate::values::Operator;

verus! {

/// The multiplier of the hash.
pub const FX_MULTIPLIER: u64 = 0x517c_c1b7_2722_0a95;

/// `h` rotated left by five bits.
pub open spec fn rotl5(h: u64) -> u64 {
    (h << 5u64) | (h >> 59u64)
}

/// The bytes of `s` shifted into `acc` one after another, most significant first.
pub open spec fn word_from(acc: u64, s: Seq<u8>) -> u64
    decreases s.len(),
{
    if s.len() == 0 {
        acc
    } else {
        word_from((acc << 8u64) | (s[0] as u64), s.skip(1))
    }
}

/// The first eight bytes of a write, or all of a shorter one, as a big-endian word.
pub open spec fn first_word(bytes: Seq<u8>) -> u64 {
    word_from(0, bytes.take(if bytes.len() < 8 { bytes.len() as int } else { 8 }))
}

/// The state after writing `bytes` in state `h`.
pub open spec fn fx_write(h: u64, bytes: Seq<u8>) -> u64 {
    wrapping_mul(rotl5(h) ^ first_word(bytes), FX_MULTIPLIER)
}

/// The eight little-endian bytes of `n`.
pub open spec fn le_bytes(n: u64) -> Seq<u8> {
    seq![
        (n & 0xff) as u8,
        ((n >> 8u64) & 0xff) as u8,
        ((n >> 16u64) & 0xff) as u8,
        ((n >> 24u64) & 0xff) as u8,
        ((n >> 32u64) & 0xff) as u8,
        ((n >> 40u64) & 0xff) as u8,
        ((n >> 48u64) & 0xff) as u8,
        ((n >> 56u64) & 0xff) as u8,
    ]
}

/// The state after writing `bytes` eight at a time, the last write holding the rest.
pub open spec fn chunks_hash(h: u64, bytes: Seq<u8>) -> u64
    decreases bytes.len(),
{
    if bytes.len() == 0 {
        h
    } else if bytes.len() <= 8 {
        fx_write(h, bytes)
    } else {
        chunks_hash(fx_write(h, bytes.take(8)), bytes.skip(8))
    }
}

/// A string: its length in bytes, then its UTF-8 bytes.
pub open spec fn str_hash(h: u64, s: Seq<char>) -> u64 {
    let b = encode_utf8(s);
    chunks_hash(fx_write(h, le_bytes(b.len() as u64)), b)
}

/// A flag: one byte, one for true.
pub open spec fn bool_hash(h: u64, b: bool) -> u64 {
    fx_write(h, seq![if b { 1u8 } else { 0u8 }])
}

/// The number of an operator: its place in the declaration of [`Operator`].
pub open spec fn operator_code(o: Operator) -> u8 {
    match o {
        Operator::Plus => 0,
        Operator::Minus => 1,
        Operator::Multiply => 2,
        Operator::Divide => 3,
        Operator::Modulo => 4,
        Operator::Equals => 5,
        Operator::NotEquals => 6,
        Operator::Greater => 7,
        Operator::GreaterEquals => 8,
        Operator::Less => 9,
        Operator::LessEquals => 10,
        Operator::BitShiftRight => 11,
        Operator::BitShiftLeft => 12,
        Operator::BinaryXor => 13,
        Operator::BinaryOr => 14,
        Operator::BinaryAnd => 15,
        Operator::LogicalXor => 16,
        Operator::LogicalOr => 17,
        Operator::LogicalAnd => 18,
    }
}

/// An operator: one byte, its number.
pub open spec fn operator_hash(h: u64, o: Operator) -> u64 {
    fx_write(h, seq![operator_code(o)])
}

/// An optional operator: one byte, one where there is an operator, which follows.
pub open spec fn opt_operator_hash(h: u64, o: Option<Operator>) -> u64 {
    match o {
        Some(op) => operator_hash(fx_write(h, seq![1u8]), op),
        None => fx_write(h, seq![0u8]),
    }
}

/// An optional string, marked as an optional operator is.
pub open spec fn opt_str_hash(h: u64, o: Option<Seq<char>>) -> u64 {
    match o {
        Some(s) => str_hash(fx_write(h, seq![1u8]), s),
        None => fx_write(h, seq![0u8]),
    }
}

/// A reference: a Doug chain as a one and its count, a name as its string.
pub open spec fn reference_hash(h: u64, r: ReferenceView) -> u64 {
    match r {
        ReferenceView::Doug(c) => fx_write(fx_write(h, seq![1u8]), le_bytes(c.count as u64)),
        ReferenceView::Variable(n) => str_hash(h, n),
    }
}

/// The first `n` references of `rs`, one after another.
pub open spec fn refs_items(h: u64, rs: Seq<ReferenceView>, n: int) -> u64
    decreases n,
{
    if n <= 0 {
        h
    } else {
        reference_hash(refs_items(h, rs, n - 1), rs[n - 1])
    }
}

/// A sequence of references: its length, then each reference.
pub open spec fn refs_hash(h: u64, rs: Seq<ReferenceView>) -> u64 {
    refs_items(fx_write(h, le_bytes(rs.len() as u64)), rs, rs.len() as int)
}

/// An expression.
pub open spec fn expr_hash(h: u64, e: ExprView) -> u64
    decreases e, 0int,
{
    match e {
        ExprView::Literal(_) => fx_write(h, seq![1u8, 0u8, 0u8, 0u8]),
        ExprView::Variable(v) => str_hash(h, v),
        ExprView::Rigged { func, args } => {
            let h1 = str_hash(h, func);
            exprs_items(fx_write(h1, le_bytes(args.len() as u64)), args, args.len() as int)
        },
        ExprView::Condition { left, operator, right } => {
            let h1 = expr_hash(h, *left);
            let h2 = opt_operator_hash(h1, operator);
            match right {
                Some(r) => expr_hash(fx_write(h2, seq![1u8]), *r),
                None => fx_write(h2, seq![0u8]),
            }
        },
        ExprView::FmcaCall { name } => opt_str_hash(h, name),
        ExprView::DougSequence { chains } => refs_hash(h, chains),
        ExprView::MainTapeDougSequence { chains } => refs_hash(h, chains),
    }
}

/// The first `n` expressions of `es`, one after another.
pub open spec fn exprs_items(h: u64, es: Seq<ExprView>, n: int) -> u64
    decreases es, n,
{
    if n <= 0 || n > es.len() {
        h
    } else {
        expr_hash(exprs_items(h, es, n - 1), es[n - 1])
    }
}

/// An optional expression, marked as an optional operator is.
pub open spec fn opt_expr_hash(h: u64, e: Option<ExprView>) -> u64 {
    match e {
        Some(x) => expr_hash(fx_write(h, seq![1u8]), x),
        None => fx_write(h, seq![0u8]),
    }
}

/// A statement: a byte for its kind, then its parts.
pub open spec fn stmt_hash(h: u64, s: StmtView) -> u64
    decreases s, 0int,
{
    match s {
        StmtView::Doug { chains, reset } => bool_hash(refs_hash(fx_write(h, seq![0u8]), chains), reset),
        StmtView::Tts { msg, use_index, overlap } => bool_hash(
            bool_hash(opt_expr_hash(fx_write(h, seq![1u8]), msg), use_index),
            overlap,
        ),
        StmtView::Call { name, use_index } => bool_hash(opt_str_hash(fx_write(h, seq![2u8]), name), use_index),
        StmtView::Guod { value, use_index } => bool_hash(opt_expr_hash(fx_write(h, seq![3u8]), value), use_index),
        StmtView::Assign { value, oper } => opt_operator_hash(expr_hash(fx_write(h, seq![4u8]), value), oper),
        StmtView::Expr(e) => expr_hash(fx_write(h, seq![5u8]), e),
        StmtView::Loop { body } => {
            let h1 = fx_write(fx_write(h, seq![6u8]), le_bytes(body.len() as u64));
            stmts_items(h1, body, body.len() as int)
        },
        StmtView::Prediction { believe_body, doubt_body, condition } => {
            let h1 = fx_write(fx_write(h, seq![7u8]), le_bytes(believe_body.len() as u64));
            let h2 = stmts_items(h1, believe_body, believe_body.len() as int);
            let h3 = stmts_items(fx_write(h2, le_bytes(doubt_body.len() as u64)), doubt_body, doubt_body.len() as int);
            expr_hash(h3, condition)
        },
        StmtView::FiveMinuteCodingAdventure { name, body } => {
            let h1 = str_hash(fx_write(h, seq![8u8]), name);
            stmts_items(fx_write(h1, le_bytes(body.len() as u64)), body, body.len() as int)
        },
    }
}

/// The first `n` statements of `ss`, one after another.
pub open spec fn stmts_items(h: u64, ss: Seq<StmtView>, n: int) -> u64
    decreases ss, n,
{
    if n <= 0 || n > ss.len() {
        h
    } else {
        stmt_hash(stmts_items(h, ss, n - 1), ss[n - 1])
    }
}

/// A sequence of statements: its length, then each statement.
pub open spec fn stmts_hash(h: u64, ss: Seq<StmtView>) -> u64 {
    stmts_items(fx_write(h, le_bytes(ss.len() as u64)), ss, ss.len() as int)
}

/// The hasher: its state, and the tape slots already handed out.
#[derive(Clone)]
pub struct FxHasher {
    hash: u64,
    pub indexes: Vec<i32>,
}

impl FxHasher {
    /// The state of the hash.
    pub closed spec fn state(&self) -> u64 {
        self.hash
    }

    /// The tape slots handed out so far.
    pub closed spec fn slots(&self) -> Seq<i32> {
        self.indexes@
    }

    /// The tape slots handed out so far, as the field `indexes` holds them.
    pub fn indexes(&self) -> (r: &[i32])
        ensures
            r@ == self.slots(),
    {
        self.indexes.as_slice()
    }

    pub fn new() -> (h: Self)
        ensures
            h.state() == 0,
            h.slots() == Seq::<i32>::empty(),
    {
        FxHasher { hash: 0, indexes: Vec::new() }
    }

    /// Mixes the first eight bytes of `bytes` into the state.
    pub fn write(&mut self, bytes: &[u8])
        ensures
            final(self).state() == fx_write(old(self).state(), bytes@),
            final(self).slots() == old(self).slots(),
    {
        let n: usize = if bytes.len() < 8 { bytes.len() } else { 8 };
        let ghost t = bytes@.take(n as int);
        let mut acc: u64 = 0;
        let mut i: usize = 0;
        assert(t.skip(0) =~= t);
        while i < n
            invariant
                i <= n,
                n <= bytes@.len(),
                t == bytes@.take(n as int),
                word_from(acc, t.skip(i as int)) == word_from(0, t),
            decreases n - i,
        {
            assert(t.skip(i as int).skip(1) =~= t.skip(i + 1));
            acc = (acc << 8u64) | (bytes[i] as u64);
            i = i + 1;
        }
        assert(t.skip(n as int) =~= Seq::<u8>::empty());
        let h = self.hash;
        let rotated = (h << 5u64) | (h >> 59u64);
        self.hash = (rotated ^ acc).wrapping_mul(FX_MULTIPLIER);
    }

    /// The state of the hash.
    pub fn finish(&self) -> (r: u64)
        ensures
            r == self.state(),
    {
        self.hash
    }

    pub fn write_u8(&mut self, i: u8)
        ensures
            final(self).state() == fx_write(old(self).state(), seq![i]),
            final(self).slots() == old(self).slots(),
    {
        let b: [u8; 1] = [i];
        proof {
            assert(b@ =~= seq![i]);
        }
        self.write(&b);
    }

    /// Writes the eight little-endian bytes of `i`.
    pub fn write_usize(&mut self, i: usize)
        ensures
            final(self).state() == fx_write(old(self).state(), le_bytes(i as u64)),
            final(self).slots() == old(self).slots(),
    {
        let b = le_array(i as u64);
        self.write(&b);
    }

    /// Writes the four little-endian bytes of `i`.
    pub fn write_i32(&mut self, i: i32)
        ensures
            final(self).state() == fx_write(old(self).state(), seq![
                (i & 0xff) as u8,
                ((i >> 8i32) & 0xff) as u8,
                ((i >> 16i32) & 0xff) as u8,
                ((i >> 24i32) & 0xff) as u8,
            ]),
            final(self).slots() == old(self).slots(),
    {
        let b: [u8; 4] = [
            (i & 0xff) as u8,
            ((i >> 8i32) & 0xff) as u8,
            ((i >> 16i32) & 0xff) as u8,
            ((i >> 24i32) & 0xff) as u8,
        ];
        proof {
            assert(b@ =~= seq![
                (i & 0xff) as u8,
                ((i >> 8i32) & 0xff) as u8,
                ((i >> 16i32) & 0xff) as u8,
                ((i >> 24i32) & 0xff) as u8,
            ]);
        }
        self.write(&b);
    }
}

/// The eight little-endian bytes of `n`.
fn le_array(n: u64) -> (b: [u8; 8])
    ensures
        b@ == le_bytes(n),
{
    let b: [u8; 8] = [
        (n & 0xff) as u8,
        ((n >> 8u64) & 0xff) as u8,
        ((n >> 16u64) & 0xff) as u8,
        ((n >> 24u64) & 0xff) as u8,
        ((n >> 32u64) & 0xff) as u8,
        ((n >> 40u64) & 0xff) as u8,
        ((n >> 48u64) & 0xff) as u8,
        ((n >> 56u64) & 0xff) as u8,
    ];
    assert(b@ =~= le_bytes(n));
    b
}

/// Builds fresh hashers.
#[derive(Clone, Copy)]
pub struct BuildFxHasher {}

impl BuildFxHasher {
    pub fn build_hasher(&self) -> (h: FxHasher)
        ensures
            h.state() == 0,
            h.slots() == Seq::<i32>::empty(),
    {
        FxHasher::new()
    }
}

/// What can be written to a hasher.
pub trait HashNode {
    /// The state of a hasher in state `h` after this node is written to it.
    spec fn node_hash(&self, h: u64) -> u64;

    /// Writes this node to `hasher`.
    fn hash_node(&self, hasher: &mut FxHasher)
        ensures
            final(hasher).state() == self.node_hash(old(hasher).state()),
            final(hasher).slots() == old(hasher).slots(),
    ;
}

fn hash_str(s: &str, hasher: &mut FxHasher)
    ensures
        final(hasher).state() == str_hash(old(hasher).state(), s@),
        final(hasher).slots() == old(hasher).slots(),
{
    let bytes = s.as_bytes();
    let n = bytes.len();
    let len = le_array(n as u64);
    hasher.write(&len);
    let ghost b = bytes@;
    let ghost h1 = hasher.state();
    let mut i: usize = 0;
    assert(b.skip(0) =~= b);
    while i < n
        invariant
            i <= n,
            n == b.len(),
            b == bytes@,
            b == encode_utf8(s@),
            h1 == fx_write(old(hasher).state(), le_bytes(n as u64)),
            hasher.slots() == old(hasher).slots(),
            chunks_hash(hasher.state(), b.skip(i as int)) == chunks_hash(h1, b),
        decreases n - i,
    {
        let end: usize = if n - i <= 8 { n } else { i + 8 };
        let chunk = vstd::slice::slice_subrange(bytes, i, end);
        let ghost before = hasher.state();
        hasher.write(chunk);
        proof {
            let rest = b.skip(i as int);
            if rest.len() <= 8 {
                assert(chunk@ =~= rest);
                assert(b.skip(end as int) =~= Seq::<u8>::empty());
            } else {
                assert(chunk@ =~= rest.take(8));
                assert(rest.skip(8) =~= b.skip(end as int));
            }
        }
        i = end;
    }
    assert(b.skip(n as int) =~= Seq::<u8>::empty());
}

fn hash_bool(b: bool, hasher: &mut FxHasher)
    ensures
        final(hasher).state() == bool_hash(old(hasher).state(), b),
        final(hasher).slots() == old(hasher).slots(),
{
    hasher.write_u8(if b { 1u8 } else { 0u8 });
}

fn operator_byte(o: Operator) -> (b: u8)
    ensures
        b == operator_code(o),
{
    match o {
        Operator::Plus => 0,
        Operator::Minus => 1,
        Operator::Multiply => 2,
        Operator::Divide => 3,
        Operator::Modulo => 4,
        Operator::Equals => 5,
        Operator::NotEquals => 6,
        Operator::Greater => 7,
        Operator::GreaterEquals => 8,
        Operator::Less => 9,
        Operator::LessEquals => 10,
        Operator::BitShiftRight => 11,
        Operator::BitShiftLeft => 12,
        Operator::BinaryXor => 13,
        Operator::BinaryOr => 14,
        Operator::BinaryAnd => 15,
        Operator::LogicalXor => 16,
        Operator::LogicalOr => 17,
        Operator::LogicalAnd => 18,
    }
}

fn hash_opt_operator(o: Option<Operator>, hasher: &mut FxHasher)
    ensures
        final(hasher).state() == opt_operator_hash(old(hasher).state(), o),
        final(hasher).slots() == old(hasher).slots(),
{
    match o {
        Some(op) => {
            hasher.write_u8(1);
            hasher.write_u8(operator_byte(op));
        },
        None => hasher.write_u8(0),
    }
}

fn hash_opt_str(o: &Option<String>, hasher: &mut FxHasher)
    ensures
        final(hasher).state() == opt_str_hash(old(hasher).state(), crate::parser::ast::opt_string_view(*o)),
        final(hasher).slots() == old(hasher).slots(),
{
    match o {
        Some(s) => {
            hasher.write_u8(1);
            hash_str(s.as_str(), hasher);
        },
        None => hasher.write_u8(0),
    }
}

fn hash_reference(r: &Reference, hasher: &mut FxHasher)
    ensures
        final(hasher).state() == reference_hash(old(hasher).state(), r@),
        final(hasher).slots() == old(hasher).slots(),
{
    match r {
        Reference::Doug(c) => {
            hasher.write_u8(1);
            let b = le_array(c.count as u64);
            hasher.write(&b);
        },
        Reference::Variable(name) => hash_str(name.as_str(), hasher),
    }
}

fn hash_refs(v: &Vec<Reference>, hasher: &mut FxHasher)
    ensures
        final(hasher).state() == refs_hash(old(hasher).state(), references_view(v@)),
        final(hasher).slots() == old(hasher).slots(),
{
    let n = v.len();
    let len = le_array(n as u64);
    hasher.write(&len);
    let ghost h1 = hasher.state();
    let ghost rv = references_view(v@);
    let mut i: usize = 0;
    while i < n
        invariant
            i <= n,
            n == v@.len(),
            rv == references_view(v@),
            h1 == fx_write(old(hasher).state(), le_bytes(n as u64)),
            hasher.slots() == old(hasher).slots(),
            hasher.state() == refs_items(h1, rv, i as int),
        decreases n - i,
    {
        hash_reference(&v[i], hasher);
        i = i + 1;
    }
}

fn hash_opt_expr(e: &Option<Expr>, hasher: &mut FxHasher)
    ensures
        final(hasher).state() == opt_expr_hash(old(hasher).state(), crate::parser::ast::opt_expr_view(*e)),
        final(hasher).slots() == old(hasher).slots(),
{
    match e {
        Some(x) => {
            hasher.write_u8(1);
            hash_expr(x, hasher);
        },
        None => hasher.write_u8(0),
    }
}

fn hash_expr(e: &Expr, hasher: &mut FxHasher)
    ensures
        final(hasher).state() == expr_hash(old(hasher).state(), e@),
        final(hasher).slots() == old(hasher).slots(),
    decreases e, 0int,
{
    match e {
        Expr::Literal(_) => {
            hasher.write_i32(1);
            proof {
                let one: i32 = 1;
                assert((one & 0xff) as u8 == 1u8 && ((one >> 8i32) & 0xff) as u8 == 0u8
                    && ((one >> 16i32) & 0xff) as u8 == 0u8 && ((one >> 24i32) & 0xff) as u8 == 0u8)
                    by (bit_vector)
                    requires one == 1i32;
                assert(seq![
                    (one & 0xff) as u8,
                    ((one >> 8i32) & 0xff) as u8,
                    ((one >> 16i32) & 0xff) as u8,
                    ((one >> 24i32) & 0xff) as u8,
                ] =~= seq![1u8, 0u8, 0u8, 0u8]);
            }
        },
        Expr::Variable(v) => hash_str(v.as_str(), hasher),
        Expr::Rigged { func, args } => {
            hash_str(func.as_str(), hasher);
            hash_exprs(args, hasher);
        },
        Expr::Condition { left, operator, right } => {
            hash_expr(left, hasher);
            hash_opt_operator(*operator, hasher);
            match right {
                Some(r) => {
                    hasher.write_u8(1);
                    hash_expr(r, hasher);
                },
                None => hasher.write_u8(0),
            }
        },
        Expr::FmcaCall { name } => hash_opt_str(name, hasher),
        Expr::DougSequence { chains } => hash_refs(chains, hasher),
        Expr::MainTapeDougSequence { chains } => hash_refs(chains, hasher),
    }
}

#[verifier::loop_isolation(false)]
fn hash_exprs(v: &Vec<Expr>, hasher: &mut FxHasher)
    ensures
        final(hasher).state() == exprs_items(
            fx_write(old(hasher).state(), le_bytes(v@.len() as u64)),
            exprs_view(v@),
            v@.len() as int,
        ),
        final(hasher).slots() == old(hasher).slots(),
    decreases v, 1int,
{
    let n = v.len();
    let len = le_array(n as u64);
    hasher.write(&len);
    let ghost h1 = hasher.state();
    let mut i: usize = 0;
    while i < n
        invariant
            i <= n,
            n == v@.len(),
            h1 == fx_write(old(hasher).state(), le_bytes(n as u64)),
            hasher.slots() == old(hasher).slots(),
            hasher.state() == exprs_items(h1, exprs_view(v@), i as int),
        decreases n - i,
    {
        proof {
            vstd::std_specs::vec::axiom_vec_index_decreases(*v, i as int);
        }
        hash_expr(&v[i], hasher);
        i = i + 1;
    }
}

fn hash_stmt(s: &Stmt, hasher: &mut FxHasher)
    ensures
        final(hasher).state() == stmt_hash(old(hasher).state(), s@),
        final(hasher).slots() == old(hasher).slots(),
    decreases s, 0int,
{
    match s {
        Stmt::Doug { chains, reset } => {
            hasher.write_u8(0);
            hash_refs(chains, hasher);
            hash_bool(*reset, hasher);
        },
        Stmt::Tts { msg, use_index, overlap } => {
            hasher.write_u8(1);
            hash_opt_expr(msg, hasher);
            hash_bool(*use_index, hasher);
            hash_bool(*overlap, hasher);
        },
        Stmt::Call { name, use_index } => {
            hasher.write_u8(2);
            hash_opt_str(name, hasher);
            hash_bool(*use_index, hasher);
        },
        Stmt::Guod { value, use_index } => {
            hasher.write_u8(3);
            hash_opt_expr(value, hasher);
            hash_bool(*use_index, hasher);
        },
        Stmt::Assign { value, oper } => {
            hasher.write_u8(4);
            hash_expr(value, hasher);
            hash_opt_operator(*oper, hasher);
        },
        Stmt::Expr(e) => {
            hasher.write_u8(5);
            hash_expr(e, hasher);
        },
        Stmt::Loop { body } => {
            hasher.write_u8(6);
            hash_stmts(body, hasher);
        },
        Stmt::Prediction { believe_body, doubt_body, condition } => {
            hasher.write_u8(7);
            hash_stmts(believe_body, hasher);
            hash_stmts(doubt_body, hasher);
            hash_expr(condition, hasher);
        },
        Stmt::FiveMinuteCodingAdventure { name, body } => {
            hasher.write_u8(8);
            hash_str(name.as_str(), hasher);
            hash_stmts(body, hasher);
        },
    }
}

#[verifier::loop_isolation(false)]
fn hash_stmts(v: &Vec<Stmt>, hasher: &mut FxHasher)
    ensures
        final(hasher).state() == stmts_hash(old(hasher).state(), stmts_view(v@)),
        final(hasher).slots() == old(hasher).slots(),
    decreases v, 1int,
{
    let n = v.len();
    let len = le_array(n as u64);
    hasher.write(&len);
    let ghost h1 = hasher.state();
    let mut i: usize = 0;
    while i < n
        invariant
            i <= n,
            n == v@.len(),
            h1 == fx_write(old(hasher).state(), le_bytes(n as u64)),
            hasher.slots() == old(hasher).slots(),
            hasher.state() == stmts_items(h1, stmts_view(v@), i as int),
        decreases n - i,
    {
        proof {
            vstd::std_specs::vec::axiom_vec_index_decreases(*v, i as int);
        }
        hash_stmt(&v[i], hasher);
        i = i + 1;
    }
}

/// Writes a sequence of statements held in a slice: its length, then each statement.
fn hash_stmt_slice(v: &[Stmt], hasher: &mut FxHasher)
    ensures
        final(hasher).state() == stmts_hash(old(hasher).state(), stmts_view(v@)),
        final(hasher).slots() == old(hasher).slots(),
{
    let n = v.len();
    let len = le_array(n as u64);
    hasher.write(&len);
    let ghost h1 = hasher.state();
    let mut i: usize = 0;
    while i < n
        invariant
            i <= n,
            n == v@.len(),
            h1 == fx_write(old(hasher).state(), le_bytes(n as u64)),
            hasher.slots() == old(hasher).slots(),
            hasher.state() == stmts_items(h1, stmts_view(v@), i as int),
        decreases n - i,
    {
        hash_stmt(&v[i], hasher);
        i = i + 1;
    }
}

impl HashNode for String {
    open spec fn node_hash(&self, h: u64) -> u64 {
        str_hash(h, self@)
    }

    fn hash_node(&self, hasher: &mut FxHasher) {
        hash_str(self.as_str(), hasher);
    }
}

impl HashNode for bool {
    open spec fn node_hash(&self, h: u64) -> u64 {
        bool_hash(h, *self)
    }

    fn hash_node(&self, hasher: &mut FxHasher) {
        hash_bool(*self, hasher);
    }
}

impl<T: HashNode> HashNode for Option<T> {
    open spec fn node_hash(&self, h: u64) -> u64 {
        match self {
            Some(v) => v.node_hash(fx_write(h, seq![1u8])),
            None => fx_write(h, seq![0u8]),
        }
    }

    fn hash_node(&self, hasher: &mut FxHasher) {
        match self {
            Some(v) => {
                hasher.write_u8(1);
                v.hash_node(hasher);
            },
            None => hasher.write_u8(0),
        }
    }
}

/// The first `n` items of `s`, one after another.
pub open spec fn items_hash<T: HashNode>(h: u64, s: Seq<T>, n: int) -> u64
    decreases n,
{
    if n <= 0 || n > s.len() {
        h
    } else {
        s[n - 1].node_hash(items_hash(h, s, n - 1))
    }
}

impl<T: HashNode> HashNode for Vec<T> {
    open spec fn node_hash(&self, h: u64) -> u64 {
        items_hash(fx_write(h, le_bytes(self@.len() as u64)), self@, self@.len() as int)
    }

    fn hash_node(&self, hasher: &mut FxHasher) {
        let n = self.len();
        let len = le_array(n as u64);
        hasher.write(&len);
        let ghost h1 = hasher.state();
        let mut i: usize = 0;
        while i < n
            invariant
                i <= n,
                n == self@.len(),
                h1 == fx_write(old(hasher).state(), le_bytes(n as u64)),
                hasher.slots() == old(hasher).slots(),
                hasher.state() == items_hash(h1, self@, i as int),
            decreases n - i,
        {
            self[i].hash_node(hasher);
            i = i + 1;
        }
    }
}

impl<T: HashNode> HashNode for Box<T> {
    open spec fn node_hash(&self, h: u64) -> u64 {
        (**self).node_hash(h)
    }

    fn hash_node(&self, hasher: &mut FxHasher) {
        (**self).hash_node(hasher);
    }
}

impl HashNode for Reference {
    open spec fn node_hash(&self, h: u64) -> u64 {
        reference_hash(h, self@)
    }

    fn hash_node(&self, hasher: &mut FxHasher) {
        hash_reference(self, hasher);
    }
}

impl HashNode for DougChain {
    open spec fn node_hash(&self, h: u64) -> u64 {
        fx_write(h, le_bytes(self.count as u64))
    }

    fn hash_node(&self, hasher: &mut FxHasher) {
        hasher.write_usize(self.count);
    }
}

impl HashNode for Operator {
    open spec fn node_hash(&self, h: u64) -> u64 {
        operator_hash(h, *self)
    }

    fn hash_node(&self, hasher: &mut FxHasher) {
        hasher.write_u8(operator_byte(*self));
    }
}

impl HashNode for Expr {
    open spec fn node_hash(&self, h: u64) -> u64 {
        expr_hash(h, self@)
    }

    fn hash_node(&self, hasher: &mut FxHasher) {
        hash_expr(self, hasher);
    }
}

impl HashNode for Stmt {
    open spec fn node_hash(&self, h: u64) -> u64 {
        stmt_hash(h, self@)
    }

    fn hash_node(&self, hasher: &mut FxHasher) {
        hash_stmt(self, hasher);
    }
}

impl HashNode for FiveMinuteCodingAdventure {
    open spec fn node_hash(&self, h: u64) -> u64 {
        stmts_hash(h, self@)
    }

    fn hash_node(&self, hasher: &mut FxHasher) {
        hash_stmt_slice(self.get_nodes(), hasher);
    }
}

/// The smallest magnitude of an adventure's slot.
pub const MIN_SLOT_MAGNITUDE: u64 = 1_000;

/// One past the largest magnitude of an adventure's slot.
pub const MAX_SLOT_MAGNITUDE: u64 = 2_000_000;

/// The slot a hash state points to: a negative number whose magnitude lies from
/// [`MIN_SLOT_MAGNITUDE`] up to, not including, [`MAX_SLOT_MAGNITUDE`].
pub open spec fn slot_of(raw: u64) -> int {
    -(MIN_SLOT_MAGNITUDE + raw % ((MAX_SLOT_MAGNITUDE - MIN_SLOT_MAGNITUDE) as u64))
}

/// Whether `v` lies at least sixteen cells from every slot handed out in `slots`.
pub open spec fn slot_free(slots: Seq<i32>, v: int) -> bool {
    forall|k: int| 0 <= k < slots.len() ==> #[trigger] slots[k] - v >= 16 || slots[k] - v <= -16
}

/// The hash state after writing the statements `nodes` `k` times from state `h`.
pub open spec fn rehash(h: u64, nodes: Seq<StmtView>, k: nat) -> u64
    decreases k,
{
    if k == 0 {
        h
    } else {
        stmts_hash(rehash(h, nodes, (k - 1) as nat), nodes)
    }
}

/// Whether the `k`-th writing of `nodes` from state `h` points to a free slot.
pub open spec fn attempt_free(h: u64, nodes: Seq<StmtView>, slots: Seq<i32>, k: nat) -> bool {
    slot_free(slots, slot_of(rehash(h, nodes, k)))
}

/// Gives the adventure `func` a tape slot: it writes the adventure to `hasher` until
/// the state points to a slot at least sixteen cells from every slot handed out
/// before, and hands that slot out. Where no writing ever does, the search never ends;
/// `requires` leaves those inputs out.
pub fn hash_fiveminutecodingadventure(func: &FiveMinuteCodingAdventure, hasher: &mut FxHasher) -> (r: i32)
    requires
        exists|k: nat| k >= 1 && attempt_free(old(hasher).state(), func@, old(hasher).slots(), k),
    ensures
        exists|k: nat| {
            &&& k >= 1
            &&& attempt_free(old(hasher).state(), func@, old(hasher).slots(), k)
            &&& forall|j: nat| 1 <= j < k ==> !attempt_free(old(hasher).state(), func@, old(hasher).slots(), j)
            &&& final(hasher).state() == rehash(old(hasher).state(), func@, k)
            &&& r == slot_of(rehash(old(hasher).state(), func@, k))
        },
        final(hasher).slots() == old(hasher).slots().push(r),
{
    let ghost h0 = hasher.state();
    let ghost slots = hasher.slots();
    let ghost nodes = func@;
    let ghost target: nat = choose|k: nat| k >= 1 && attempt_free(h0, nodes, slots, k);
    let ghost mut k: nat = 0;
    loop
        invariant
            h0 == old(hasher).state(),
            slots == old(hasher).slots(),
            k < target,
            target >= 1,
            attempt_free(h0, nodes, slots, target),
            nodes == func@,
            hasher.slots() == slots,
            hasher.state() == rehash(h0, nodes, k),
            forall|j: nat| 1 <= j <= k ==> !attempt_free(h0, nodes, slots, j),
        decreases target - k,
    {
        func.hash_node(hasher);
        proof {
            k = k + 1;
        }
        let raw = hasher.finish();
        let mag: u64 = MIN_SLOT_MAGNITUDE + raw % (MAX_SLOT_MAGNITUDE - MIN_SLOT_MAGNITUDE);
        let attempted: i32 = -(mag as i32);
        assert(attempted == slot_of(rehash(h0, nodes, k)));
        let n = hasher.indexes.len();
        let mut clash = false;
        let mut idx: usize = 0;
        while idx < n
            invariant
                idx <= n,
                n == slots.len(),
                hasher.indexes@ == slots,
                clash ==> !slot_free(slots, attempted as int),
                !clash ==> forall|q: int| 0 <= q < idx ==> #[trigger] slots[q] - attempted >= 16 || slots[q] - attempted <= -16,
            decreases n - idx,
        {
            let d: i64 = (hasher.indexes[idx] as i64) - (attempted as i64);
            if d < 16 && d > -16 {
                clash = true;
            }
            idx = idx + 1;
        }
        if !clash {
            hasher.indexes.push(attempted);
            assert(attempt_free(h0, nodes, slots, k));
            assert(hasher.slots() =~= slots.push(attempted));
            return attempted;
        }
    }
}

/// Gives the adventure `func` a tape slot as [`hash_fiveminutecodingadventure`] does,
/// trying at most `attempts` writings: where none of them points to a free slot, the
/// hasher has taken all of them, hands out nothing and gives `None`.
pub fn try_hash_fiveminutecodingadventure(func: &FiveMinuteCodingAdventure, hasher: &mut FxHasher, attempts: u64) -> (r: Option<i32>)
    ensures
        match r {
            Some(slot) => exists|k: nat| {
                &&& 1 <= k <= attempts
                &&& attempt_free(old(hasher).state(), func@, old(hasher).slots(), k)
                &&& forall|j: nat| 1 <= j < k ==> !attempt_free(old(hasher).state(), func@, old(hasher).slots(), j)
                &&& final(hasher).state() == rehash(old(hasher).state(), func@, k)
                &&& slot == slot_of(rehash(old(hasher).state(), func@, k))
                &&& final(hasher).slots() == old(hasher).slots().push(slot)
            },
            None => {
                &&& forall|j: nat| 1 <= j <= attempts ==> !attempt_free(old(hasher).state(), func@, old(hasher).slots(), j)
                &&& final(hasher).state() == rehash(old(hasher).state(), func@, attempts as nat)
                &&& final(hasher).slots() == old(hasher).slots()
            },
        },
{
    let ghost h0 = hasher.state();
    let ghost slots = hasher.slots();
    let ghost nodes = func@;
    let mut done: u64 = 0;
    while done < attempts
        invariant
            done <= attempts,
            h0 == old(hasher).state(),
            slots == old(hasher).slots(),
            nodes == func@,
            hasher.slots() == slots,
            hasher.state() == rehash(h0, nodes, done as nat),
            forall|j: nat| 1 <= j <= done ==> !attempt_free(h0, nodes, slots, j),
        decreases attempts - done,
    {
        func.hash_node(hasher);
        done = done + 1;
        let raw = hasher.finish();
        let mag: u64 = MIN_SLOT_MAGNITUDE + raw % (MAX_SLOT_MAGNITUDE - MIN_SLOT_MAGNITUDE);
        let attempted: i32 = -(mag as i32);
        assert(attempted == slot_of(rehash(h0, nodes, done as nat)));
        let n = hasher.indexes.len();
        let mut clash = false;
        let mut idx: usize = 0;
        while idx < n
            invariant
                idx <= n,
                n == slots.len(),
                hasher.indexes@ == slots,
                clash ==> !slot_free(slots, attempted as int),
                !clash ==> forall|q: int| 0 <= q < idx ==> #[trigger] slots[q] - attempted >= 16 || slots[q] - attempted <= -16,
            decreases n - idx,
        {
            let d: i64 = (hasher.indexes[idx] as i64) - (attempted as i64);
            if d < 16 && d > -16 {
                clash = true;
            }
            idx = idx + 1;
        }
        if !clash {
            hasher.indexes.push(attempted);
            assert(attempt_free(h0, nodes, slots, done as nat));
            assert(hasher.slots() =~= slots.push(attempted));
            return Some(attempted);
        }
    }
    None
}

/// Whether the slots in `slots` lie at least sixteen cells from each other.
pub open spec fn slots_apart(slots: Seq<i32>) -> bool {
    forall|i: int, j: int| 0 <= i < j < slots.len() ==> #[trigger] slots[i] - #[trigger] slots[j] >= 16 || slots[i] - slots[j] <= -16
}

/// Handing out a free slot keeps the slots handed out apart from each other.
pub proof fn lemma_free_slot_keeps_slots_apart(slots: Seq<i32>, r: i32)
    requires
        slots_apart(slots),
        slot_free(slots, r as int),
    ensures
        slots_apart(slots.push(r)),
{
    let s2 = slots.push(r);
    assert forall|i: int, j: int| 0 <= i < j < s2.len() implies #[trigger] s2[i] - #[trigger] s2[j] >= 16 || s2[i] - s2[j] <= -16 by {
        if j == slots.len() {
            assert(s2[i] == slots[i]);
            assert(slots[i] - r >= 16 || slots[i] - r <= -16);
        } else {
            assert(s2[i] == slots[i] && s2[j] == slots[j]);
        }
    }
}

/// A slot is negative, at least a thousand cells from zero and less than two million.
pub proof fn lemma_slot_range(raw: u64)
    ensures
        -2_000_000 < slot_of(raw) <= -1_000,
{
}

} // verus!
