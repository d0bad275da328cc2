//! The program's memory: a heap of objects, and tapes of cells that point into it.
use std::collections::HashMap;
use vstd::prelude::*;

use crate::parser::ast::StmtView;
use crate::runtime::{runtime_error_text, RuntimeError};
use crate::text::{char_is_numeric, is_numeric_char, str_chars, string_from_chars};
use crate::values::value::{FiveMinuteCodingAdventure, Nil, Text, Value, ValueView};

verus! {

broadcast use vstd::std_specs::hash::group_hash_axioms;

use vstd::std_specs::hash::spec_hash_map_iter;
use vstd::std_specs::iter::IteratorSpec;

/// The number of objects an array may hold, and the type of tape keys.
pub type ArraySize = u32;

/// The size in bytes of a line of a heap block.
pub const LINE_SIZE: usize = 128;

/// The size in bytes of a heap block.
pub const BLOCK_SIZE: usize = 32768;

/// The mark an object carries on the heap.
#[derive(Clone, Copy, Debug, PartialEq, Eq, Structural)]
pub enum Mark {
    Allocated,
}

/// How large an object is, relative to the lines and blocks of the heap.
#[derive(Clone, Copy, Debug, PartialEq, Eq, Structural)]
pub enum SizeClass {
    Small,
    Medium,
    Large,
}

/// The size class of an object of `size` bytes: small up to a line, medium up to a
/// block, large beyond.
pub open spec fn size_class_of(size: usize) -> SizeClass {
    if size <= LINE_SIZE {
        SizeClass::Small
    } else if size <= BLOCK_SIZE {
        SizeClass::Medium
    } else {
        SizeClass::Large
    }
}

impl SizeClass {
    pub fn get_for_size(size: usize) -> (c: Self)
        ensures
            c == size_class_of(size),
    {
        match (size > LINE_SIZE, size > BLOCK_SIZE) {
            (false, _) => SizeClass::Small,
            (_, false) => SizeClass::Medium,
            _ => SizeClass::Large,
        }
    }
}

/// Why an allocation failed.
#[derive(Debug, Clone, Copy, PartialEq, Eq, Structural)]
pub enum AllocError {
    BadRequest,
    OOM,
}

/// The type tags of heap objects.
pub trait AllocTypeId: Copy + Clone {
}

/// The type of a heap object.
#[derive(Debug, Clone, Copy, PartialEq, Eq, Structural)]
pub enum TypeList {
    Number,
    String,
    Boolean,
    FiveMinuteCodingAdventure,
    Array,
}

impl AllocTypeId for TypeList {
}

/// The type of a read-only literal.
#[derive(Debug, Clone, Copy, PartialEq, Eq, Structural)]
pub enum LiteralList {
    Number,
    String,
    Invalid,
}

impl AllocTypeId for LiteralList {
}

/// The header of a heap object.
#[derive(Debug, Clone, Copy, PartialEq, Eq, Structural)]
pub struct TypeHeader {
    pub size: u32,
    pub mark: Mark,
    pub type_id: TypeList,
    pub size_class: SizeClass,
}

/// The header of a read-only literal.
#[derive(Debug, Clone, Copy, PartialEq, Eq, Structural)]
pub struct LiteralHeader {
    pub size: u32,
    pub mark: Mark,
    pub type_id: LiteralList,
    pub size_class: SizeClass,
}

impl TypeHeader {
    /// The header of an object of type `type_id`.
    pub fn new(size: u32, size_class: SizeClass, mark: Mark, type_id: TypeList) -> (h: Self)
        ensures
            h == (TypeHeader { size, mark, type_id, size_class }),
    {
        TypeHeader { size, mark, type_id, size_class }
    }

    /// The header of an array.
    pub fn new_array(size: ArraySize, size_class: SizeClass, mark: Mark) -> (h: Self)
        ensures
            h == (TypeHeader { size, mark, type_id: TypeList::Array, size_class }),
    {
        TypeHeader { size, mark, type_id: TypeList::Array, size_class }
    }
}

impl LiteralHeader {
    /// The header of a literal of type `type_id`.
    pub fn new(size: u32, size_class: SizeClass, mark: Mark, type_id: LiteralList) -> (h: Self)
        ensures
            h == (LiteralHeader { size, mark, type_id, size_class }),
    {
        LiteralHeader { size, mark, type_id, size_class }
    }

    /// The header of an array among the literals, which holds no valid literal.
    pub fn new_array(size: ArraySize, size_class: SizeClass, mark: Mark) -> (h: Self)
        ensures
            h == (LiteralHeader { size, mark, type_id: LiteralList::Invalid, size_class }),
    {
        LiteralHeader { size, mark, type_id: LiteralList::Invalid, size_class }
    }
}

/// An object on the heap.
#[derive(Debug, PartialEq)]
pub enum HeapObject {
    Number(u64),
    Text(Text),
    Boolean(bool),
    FiveMinuteCodingAdventure(FiveMinuteCodingAdventure),
    Nil(Nil),
}

/// The mathematical content of a [`HeapObject`].
pub enum HeapObjectView {
    Number(u64),
    Text(Seq<char>),
    Boolean(bool),
    FiveMinuteCodingAdventure(Seq<StmtView>),
    Nil,
}

impl View for HeapObject {
    type V = HeapObjectView;

    open spec fn view(&self) -> HeapObjectView {
        match self {
            HeapObject::Number(n) => HeapObjectView::Number(*n),
            HeapObject::Text(t) => HeapObjectView::Text(t.inner@),
            HeapObject::Boolean(b) => HeapObjectView::Boolean(*b),
            HeapObject::FiveMinuteCodingAdventure(f) => HeapObjectView::FiveMinuteCodingAdventure(f@),
            HeapObject::Nil(_) => HeapObjectView::Nil,
        }
    }
}

/// The type an object is allocated as; the empty object counts as a number.
pub open spec fn type_of_object(o: HeapObjectView) -> TypeList {
    match o {
        HeapObjectView::Number(_) => TypeList::Number,
        HeapObjectView::Text(_) => TypeList::String,
        HeapObjectView::Boolean(_) => TypeList::Boolean,
        HeapObjectView::FiveMinuteCodingAdventure(_) => TypeList::FiveMinuteCodingAdventure,
        HeapObjectView::Nil => TypeList::Number,
    }
}

/// The size in bytes of an object's payload on a 64-bit target.
pub open spec fn size_of_object(o: HeapObjectView) -> u32 {
    match o {
        HeapObjectView::Number(_) => 8,
        HeapObjectView::Text(_) => 24,
        HeapObjectView::Boolean(_) => 1,
        HeapObjectView::FiveMinuteCodingAdventure(_) => 24,
        HeapObjectView::Nil => 0,
    }
}

/// The header an object is allocated with.
pub open spec fn header_of(o: HeapObjectView) -> TypeHeader {
    TypeHeader {
        size: size_of_object(o),
        mark: Mark::Allocated,
        type_id: type_of_object(o),
        size_class: size_class_of(size_of_object(o) as usize),
    }
}

/// The value an object reads back as.
pub open spec fn object_value(o: HeapObjectView) -> ValueView {
    match o {
        HeapObjectView::Number(n) => ValueView::Number(n),
        HeapObjectView::Text(s) => ValueView::String(s),
        HeapObjectView::Boolean(b) => ValueView::Boolean(b),
        HeapObjectView::FiveMinuteCodingAdventure(f) => ValueView::FiveMinuteCodingAdventure(f),
        HeapObjectView::Nil => ValueView::Nil,
    }
}

/// The object a value is stored as: an error is stored as the text of its message.
pub open spec fn stored_object(v: ValueView) -> HeapObjectView {
    match v {
        ValueView::String(s) => HeapObjectView::Text(s),
        ValueView::Error(e) => HeapObjectView::Text(runtime_error_text(e)),
        ValueView::FiveMinuteCodingAdventure(f) => HeapObjectView::FiveMinuteCodingAdventure(f),
        ValueView::Number(n) => HeapObjectView::Number(n),
        ValueView::Boolean(b) => HeapObjectView::Boolean(b),
        ValueView::Nil => HeapObjectView::Nil,
    }
}

/// The part of the memory a pointer points into.
#[derive(Debug, Clone, Copy, PartialEq, Eq, Structural)]
pub enum Space {
    /// The heap of objects that values are stored as.
    Heap,
    /// The read-only numbers of the program's literals.
    Literals,
}

/// A reference to an object in memory.
#[derive(Debug, Clone, Copy, PartialEq, Eq, Structural)]
pub struct TaggedPtr {
    pub space: Space,
    pub index: usize,
}

/// A reference to a literal, as the parser hands it out.
#[derive(Debug, Clone, Copy, PartialEq, Eq, Structural)]
pub struct TaggedCellPtr {
    pub ptr: TaggedPtr,
}

impl TaggedCellPtr {
    pub fn new(ptr: TaggedPtr) -> (c: Self)
        ensures
            c.ptr == ptr,
    {
        TaggedCellPtr { ptr }
    }
}

/// What a memory holds: the heap's objects and the literal numbers, each in the order
/// they were allocated.
pub struct TapeView {
    pub objects: Seq<HeapObjectView>,
    pub literals: Seq<u64>,
}

/// The memory: the heap of objects with their headers, and the literal numbers with theirs.
pub struct Tape {
    heap: Vec<(TypeHeader, HeapObject)>,
    literals: Vec<(LiteralHeader, u64)>,
}

/// The objects of a heap.
pub open spec fn heap_objects(heap: Seq<(TypeHeader, HeapObject)>) -> Seq<HeapObjectView> {
    Seq::new(heap.len(), |i: int| heap[i].1@)
}

/// The numbers of a literal heap.
pub open spec fn literal_numbers(lits: Seq<(LiteralHeader, u64)>) -> Seq<u64> {
    Seq::new(lits.len(), |i: int| lits[i].1)
}

impl View for Tape {
    type V = TapeView;

    closed spec fn view(&self) -> TapeView {
        TapeView { objects: heap_objects(self.heap@), literals: literal_numbers(self.literals@) }
    }
}

/// The map from a tape's cells to the memory.
pub type TapeMap = HashMap<ArraySize, TaggedPtr>;

/// The value `ptr` points to in `t`, where it points to something.
pub open spec fn read_ptr(t: TapeView, ptr: TaggedPtr) -> Option<ValueView> {
    match ptr.space {
        Space::Heap => if ptr.index < t.objects.len() {
            Some(object_value(t.objects[ptr.index as int]))
        } else {
            None
        },
        Space::Literals => if ptr.index < t.literals.len() {
            Some(ValueView::Number(t.literals[ptr.index as int]))
        } else {
            None
        },
    }
}

/// The value that the cell `idx` of `map` reads as in `t`: the object it points to,
/// or nothing where it is empty or points past what `t` holds.
pub open spec fn read_map(t: TapeView, map: Map<ArraySize, TaggedPtr>, idx: ArraySize) -> Option<ValueView> {
    if map.contains_key(idx) {
        read_ptr(t, map[idx])
    } else {
        None
    }
}

/// `t` with `object` placed on its heap.
pub open spec fn with_object(t: TapeView, object: HeapObjectView) -> TapeView {
    TapeView { objects: t.objects.push(object), literals: t.literals }
}

/// `t` with the number `n` placed among its literals.
pub open spec fn with_literal(t: TapeView, n: u64) -> TapeView {
    TapeView { objects: t.objects, literals: t.literals.push(n) }
}

/// The pointer to the next object placed on the heap of `t`.
pub open spec fn next_object(t: TapeView) -> TaggedPtr {
    TaggedPtr { space: Space::Heap, index: t.objects.len() as usize }
}

fn heap_object_value(o: &HeapObject) -> (v: Value)
    ensures
        v@ == object_value(o@),
{
    match o {
        HeapObject::Number(n) => Value::Number(*n),
        HeapObject::Text(t) => Value::String(t.inner.clone()),
        HeapObject::Boolean(b) => Value::Boolean(*b),
        HeapObject::FiveMinuteCodingAdventure(f) => Value::FiveMinuteCodingAdventure(f.deep_clone()),
        HeapObject::Nil(_) => Value::Nil,
    }
}

fn header_for(o: &HeapObject) -> (h: TypeHeader)
    ensures
        h == header_of(o@),
{
    let size: u32 = match o {
        HeapObject::Number(_) => 8,
        HeapObject::Text(_) => 24,
        HeapObject::Boolean(_) => 1,
        HeapObject::FiveMinuteCodingAdventure(_) => 24,
        HeapObject::Nil(_) => 0,
    };
    let type_id = match o {
        HeapObject::Number(_) => TypeList::Number,
        HeapObject::Text(_) => TypeList::String,
        HeapObject::Boolean(_) => TypeList::Boolean,
        HeapObject::FiveMinuteCodingAdventure(_) => TypeList::FiveMinuteCodingAdventure,
        HeapObject::Nil(_) => TypeList::Number,
    };
    TypeHeader { size, mark: Mark::Allocated, type_id, size_class: SizeClass::get_for_size(size as usize) }
}

/// The object a value is stored as, built from the value itself.
fn object_for(value: Value) -> (o: HeapObject)
    ensures
        o@ == stored_object(value@),
{
    match value {
        Value::String(s) => HeapObject::Text(Text::from_string(s)),
        Value::Error(e) => HeapObject::Text(Text::from_string(e.message())),
        Value::FiveMinuteCodingAdventure(f) => HeapObject::FiveMinuteCodingAdventure(f),
        Value::Number(n) => HeapObject::Number(n),
        Value::Boolean(b) => HeapObject::Boolean(b),
        Value::Nil => HeapObject::Nil(Nil {}),
    }
}

impl Tape {
    pub fn new() -> (t: Self)
        ensures
            t@.objects == Seq::<HeapObjectView>::empty(),
            t@.literals == Seq::<u64>::empty(),
    {
        let t = Tape { heap: Vec::new(), literals: Vec::new() };
        assert(t@.objects =~= Seq::<HeapObjectView>::empty());
        assert(t@.literals =~= Seq::<u64>::empty());
        t
    }

    /// The header of the object `ptr` points to on the heap.
    pub closed spec fn header(&self, ptr: TaggedPtr) -> TypeHeader {
        self.heap@[ptr.index as int].0
    }

    /// The header of the literal `ptr` points to.
    pub closed spec fn literal_header(&self, ptr: TaggedPtr) -> LiteralHeader {
        self.literals@[ptr.index as int].0
    }

    /// A heap and a literal heap each hold no more than `usize::MAX` entries.
    pub proof fn lemma_fits(&self)
        ensures
            self@.objects.len() <= usize::MAX,
            self@.literals.len() <= usize::MAX,
    {
        assert(self.heap@.len() == self.heap.len());
        assert(self.literals@.len() == self.literals.len());
    }

    /// Places `object` on the heap, after every object already there.
    fn place(&mut self, object: HeapObject) -> (r: Result<TaggedPtr, RuntimeError>)
        ensures
            r == Ok::<TaggedPtr, RuntimeError>(next_object(old(self)@)),
            final(self)@ == with_object(old(self)@, object@),
            final(self).header(next_object(old(self)@)) == header_of(object@),
    {
        let ghost before = self@;
        let index = self.heap.len();
        let header = header_for(&object);
        let ghost ov = object@;
        self.heap.push((header, object));
        assert(self@.objects =~= before.objects.push(ov));
        assert(self@.literals =~= before.literals);
        Ok(TaggedPtr { space: Space::Heap, index })
    }

    /// Places `object` on the heap and gives a tagged pointer to it.
    fn place_tagged(&mut self, object: HeapObject) -> (r: Result<TaggedPtr, RuntimeError>)
        ensures
            r == Ok::<TaggedPtr, RuntimeError>(next_object(old(self)@)),
            final(self)@ == with_object(old(self)@, object@),
    {
        self.place(object)
    }

    /// Places the number `n` among the literals.
    fn place_literal(&mut self, n: u64) -> (r: TaggedPtr)
        ensures
            r == (TaggedPtr { space: Space::Literals, index: old(self)@.literals.len() as usize }),
            final(self)@ == with_literal(old(self)@, n),
            final(self).literal_header(r) == (LiteralHeader {
                size: 8,
                mark: Mark::Allocated,
                type_id: LiteralList::Number,
                size_class: SizeClass::Small,
            }),
    {
        let ghost before = self@;
        let index = self.literals.len();
        let header = LiteralHeader {
            size: 8,
            mark: Mark::Allocated,
            type_id: LiteralList::Number,
            size_class: SizeClass::get_for_size(8),
        };
        self.literals.push((header, n));
        assert(self@.objects =~= before.objects);
        assert(self@.literals =~= before.literals.push(n));
        TaggedPtr { space: Space::Literals, index }
    }

    /// The value `ptr` points to, where it points to something.
    fn read(&self, ptr: TaggedPtr) -> (r: Option<Value>)
        ensures
            match r {
                Some(v) => read_ptr(self@, ptr) == Some(v@),
                None => read_ptr(self@, ptr) is None,
            },
    {
        match ptr.space {
            Space::Heap => if ptr.index < self.heap.len() {
                Some(heap_object_value(&self.heap[ptr.index].1))
            } else {
                None
            },
            Space::Literals => if ptr.index < self.literals.len() {
                Some(Value::Number(self.literals[ptr.index].1))
            } else {
                None
            },
        }
    }

    /// The value of cell `idx` of `map`, where it holds one.
    pub fn get_value(&self, idx: ArraySize, map: &TapeMap) -> (r: Option<Value>)
        ensures
            match r {
                Some(v) => read_map(self@, map@, idx) == Some(v@),
                None => read_map(self@, map@, idx) is None,
            },
    {
        match map.get(&idx) {
            Some(ptr) => self.read(*ptr),
            None => None,
        }
    }

    /// Stores `value` in cell `idx` of `map`: it is placed on the heap, and the cell
    /// points to it from then on.
    pub fn upsert_value(&mut self, idx: ArraySize, value: Value, map: &mut TapeMap) -> (r: Result<(), RuntimeError>)
        ensures
            r is Ok,
            final(self)@ == with_object(old(self)@, stored_object(value@)),
            final(map)@ == old(map)@.insert(idx, next_object(old(self)@)),
    {
        let object = object_for(value);
        let ptr = match self.place(object) {
            Ok(p) => p,
            Err(e) => return Err(e),
        };
        map.insert(idx, ptr);
        Ok(())
    }
}

/// The memory a program runs in.
pub struct Memory {
    tape: Tape,
}

impl View for Memory {
    type V = TapeView;

    closed spec fn view(&self) -> TapeView {
        self.tape@
    }
}

impl Memory {
    pub fn new() -> (m: Self)
        ensures
            m@.objects == Seq::<HeapObjectView>::empty(),
            m@.literals == Seq::<u64>::empty(),
    {
        Memory { tape: Tape::new() }
    }

    /// Runs `m` on `input` with a view of this memory, and gives back what it returns.
    pub fn mutate<M: Mutator>(&mut self, m: &mut M, input: M::Input) -> (r: Result<M::Output, RuntimeError>)
        ensures
            old(m).run_gives(old(self)@, input, r, final(self)@),
    {
        let mut guard = MutatorView { tape: &mut self.tape };
        m.run(&mut guard, input)
    }
}

/// A view of the memory through which a mutator reads and allocates.
pub struct MutatorView<'memory> {
    pub tape: &'memory mut Tape,
}

/// What runs inside a view of the memory.
pub trait MutatorScope {
}

/// A computation that runs against the memory.
pub trait Mutator: Sized {
    type Input;
    type Output;

    /// Whether a run of this mutator on `input`, over a memory that holds `before`, may
    /// give back `r` and leave the memory holding `after`; a mutator that says no more
    /// allows every outcome.
    closed spec fn run_gives(
        &self,
        before: TapeView,
        input: Self::Input,
        r: Result<Self::Output, RuntimeError>,
        after: TapeView,
    ) -> bool {
        true
    }

    /// Runs on `input` against the memory `mem` views; the view is left viewing the same
    /// memory.
    fn run(&mut self, mem: &mut MutatorView, input: Self::Input) -> (r: Result<Self::Output, RuntimeError>)
        ensures
            old(self).run_gives(old(mem).memory(), input, r, final(mem).memory()),
            (*final(final(mem).tape))@ == (*final(old(mem).tape))@;
}

impl<'memory> MutatorScope for MutatorView<'memory> {
}

/// The text of a literal token: what stands between a leading double quote and the next
/// one, or the run of digits and dots a token that starts with a digit begins with.
pub open spec fn literal_text(token: Seq<char>) -> Option<Seq<char>> {
    if token.len() > 0 && token[0] == '"' {
        let rest = token.skip(1);
        if rest.contains('"') {
            Some(rest.take(first_index_of(rest, '"')))
        } else {
            None
        }
    } else if token.len() > 0 && is_numeric_char(token[0]) {
        Some(token.take(numeric_run(token)))
    } else {
        None
    }
}

/// Where `c` first occurs in `s` (its length where it does not).
pub open spec fn first_index_of(s: Seq<char>, c: char) -> int
    decreases s.len(),
{
    if s.len() == 0 {
        0
    } else if s[0] == c {
        0
    } else {
        1 + first_index_of(s.skip(1), c)
    }
}

/// How many characters at the start of `s` are numeric or a dot.
pub open spec fn numeric_run(s: Seq<char>) -> int
    decreases s.len(),
{
    if s.len() > 0 && (is_numeric_char(s[0]) || s[0] == '.') {
        1 + numeric_run(s.skip(1))
    } else {
        0
    }
}

/// The text of a literal token, as [`literal_text`] gives it.
pub fn literal_token(token: &str) -> (r: Option<String>)
    ensures
        match r {
            Some(t) => literal_text(token@) == Some(t@),
            None => literal_text(token@) is None,
        },
{
    let chars = str_chars(token);
    let n = chars.len();
    if n > 0 && chars[0] == '"' {
        let ghost rest = token@.skip(1);
        let mut j: usize = 1;
        assert(rest.skip(0) =~= rest);
        while j < n && chars[j] != '"'
            invariant
                1 <= j <= n,
                n == chars@.len(),
                chars@ == token@,
                chars@[0] == '"',
                rest == token@.skip(1),
                forall|k: int| 1 <= k < j ==> chars@[k] != '"',
                first_index_of(rest.skip(j - 1), '"') + (j - 1) == first_index_of(rest, '"'),
            decreases n - j,
        {
            assert(rest.skip(j - 1).skip(1) =~= rest.skip(j as int));
            j = j + 1;
        }
        if j == n {
            assert(!rest.contains('"')) by {
                if rest.contains('"') {
                    let k = choose|k: int| 0 <= k < rest.len() && rest[k] == '"';
                    assert(chars@[k + 1] == '"');
                }
            }
            None
        } else {
            assert(rest[j - 1] == '"');
            assert(rest.skip(j - 1)[0] == '"');
            let mut out: Vec<char> = Vec::new();
            let mut k: usize = 1;
            while k < j
                invariant
                    1 <= k <= j,
                    j < n,
                    n == chars@.len(),
                    out@ == chars@.subrange(1, k as int),
                decreases j - k,
            {
                out.push(chars[k]);
                k = k + 1;
            }
            assert(out@ =~= rest.take(j - 1));
            Some(string_from_chars(out.as_slice()))
        }
    } else if n > 0 && char_is_numeric(chars[0]) {
        let mut j: usize = 0;
        assert(token@.skip(0) =~= token@);
        while j < n && (char_is_numeric(chars[j]) || chars[j] == '.')
            invariant
                j <= n,
                n == chars@.len(),
                chars@ == token@,
                numeric_run(token@.skip(j as int)) + j == numeric_run(token@),
            decreases n - j,
        {
            assert(token@.skip(j as int).skip(1) =~= token@.skip(j + 1));
            j = j + 1;
        }
        let mut out: Vec<char> = Vec::new();
        let mut k: usize = 0;
        while k < j
            invariant
                k <= j,
                j <= n,
                n == chars@.len(),
                out@ == chars@.subrange(0, k as int),
            decreases j - k,
        {
            out.push(chars[k]);
            k = k + 1;
        }
        assert(out@ =~= token@.take(j as int));
        Some(string_from_chars(out.as_slice()))
    } else {
        None
    }
}

impl<'memory> MutatorView<'memory> {
    /// What the memory this view reads and allocates in holds.
    pub closed spec fn memory(&self) -> TapeView {
        self.tape@
    }

    /// The memory a view reads holds no more than `usize::MAX` objects or literals.
    pub proof fn lemma_memory_fits(&self)
        ensures
            self.memory().objects.len() <= usize::MAX,
            self.memory().literals.len() <= usize::MAX,
    {
        self.tape.lemma_fits();
    }

    pub fn new(mem: &'memory mut Memory) -> (v: Self)
        ensures
            v.memory() == old(mem)@,
            (*final(v.tape))@ == final(mem)@,
    {
        MutatorView { tape: &mut mem.tape }
    }

    /// Places `object` on the heap and gives a pointer to it.
    pub fn alloc_object(&mut self, object: HeapObject) -> (r: Result<TaggedPtr, RuntimeError>)
        ensures
            r == Ok::<TaggedPtr, RuntimeError>(next_object(old(self).memory())),
            final(self).memory() == with_object(old(self).memory(), object@),
    {
        self.tape.place(object)
    }

    /// Places `object` on the heap and gives a tagged pointer to it.
    pub fn alloc_tagged(&mut self, object: HeapObject) -> (r: Result<TaggedPtr, RuntimeError>)
        ensures
            r == Ok::<TaggedPtr, RuntimeError>(next_object(old(self).memory())),
            final(self).memory() == with_object(old(self).memory(), object@),
    {
        self.tape.place_tagged(object)
    }

    /// The value `ptr` points to, where it points to something.
    pub fn read(&self, ptr: TaggedPtr) -> (r: Option<Value>)
        ensures
            match r {
                Some(v) => read_ptr(self.memory(), ptr) == Some(v@),
                None => read_ptr(self.memory(), ptr) is None,
            },
    {
        self.tape.read(ptr)
    }

    /// Places the literal written as `token` in memory and gives a pointer to it; where
    /// `token` is no literal, nothing is placed. `number` is the double, as its bits,
    /// that the literal's text reads as, where it reads as one: the literal is then
    /// placed among the literal numbers, and otherwise on the heap as text.
    pub fn alloc_literal(&mut self, token: String, number: Option<u64>) -> (r: Option<TaggedCellPtr>)
        ensures
            match literal_text(token@) {
                None => r is None && final(self).memory() == old(self).memory(),
                Some(t) => match number {
                    Some(n) => {
                        &&& r == Some(TaggedCellPtr { ptr: TaggedPtr {
                            space: Space::Literals,
                            index: old(self).memory().literals.len() as usize,
                        } })
                        &&& final(self).memory() == with_literal(old(self).memory(), n)
                    },
                    None => {
                        &&& r == Some(TaggedCellPtr { ptr: next_object(old(self).memory()) })
                        &&& final(self).memory() == with_object(old(self).memory(), HeapObjectView::Text(t))
                    },
                },
            },
    {
        let text = match literal_token(token.as_str()) {
            Some(t) => t,
            None => return None,
        };
        match number {
            Some(n) => {
                let p = self.tape.place_literal(n);
                Some(TaggedCellPtr::new(p))
            },
            None => match self.tape.place_tagged(HeapObject::Text(Text::from_string(text))) {
                Ok(p) => Some(TaggedCellPtr::new(p)),
                Err(_) => None,
            },
        }
    }

    /// Reads the cell `idx` of `map` in this view's memory.
    fn get_value(&self, idx: ArraySize, map: &TapeMap) -> (r: Option<Value>)
        ensures
            match r {
                Some(v) => read_map(self.memory(), map@, idx) == Some(v@),
                None => read_map(self.memory(), map@, idx) is None,
            },
    {
        self.tape.get_value(idx, map)
    }

    /// Stores `value` in the cell `idx` of `map` in this view's memory.
    fn upsert_value(&mut self, idx: ArraySize, value: Value, map: &mut TapeMap)
        ensures
            final(self).memory() == with_object(old(self).memory(), stored_object(value@)),
            final(map)@ == old(map)@.insert(idx, next_object(old(self).memory())),
    {
        let _ = self.tape.upsert_value(idx, value, map);
    }
}

/// The key a tape cell is kept under: cells at and right of zero under their own
/// number, cells left of zero under their distance from zero less one.
pub open spec fn cell_key(idx: int) -> u32 {
    if idx < 0 {
        (-idx - 1) as u32
    } else {
        idx as u32
    }
}

/// The cells of a tape: those left of zero and those at and right of it, by key.
pub struct RuntimeTapeView {
    pub left: Map<ArraySize, TaggedPtr>,
    pub right: Map<ArraySize, TaggedPtr>,
    pub cursor: i32,
}

impl RuntimeTapeView {
    /// The half of the tape the cell `idx` lies in.
    pub open spec fn side(self, idx: int) -> Map<ArraySize, TaggedPtr> {
        if idx < 0 {
            self.left
        } else {
            self.right
        }
    }

    /// Where the cell `idx` points, where it has been written.
    pub open spec fn pointer(self, idx: int) -> Option<TaggedPtr> {
        if self.side(idx).contains_key(cell_key(idx)) {
            Some(self.side(idx)[cell_key(idx)])
        } else {
            None
        }
    }

    /// This tape with the cell `idx` pointing to `ptr`.
    pub open spec fn with_cell(self, idx: int, ptr: TaggedPtr) -> RuntimeTapeView {
        if idx < 0 {
            RuntimeTapeView { left: self.left.insert(cell_key(idx), ptr), ..self }
        } else {
            RuntimeTapeView { right: self.right.insert(cell_key(idx), ptr), ..self }
        }
    }
}

/// The number zero, as the bits of a double.
pub open spec fn zero_bits() -> u64 {
    0
}

/// What the cell `idx` of tape `t` reads as in memory `mem`: the value it points to,
/// or zero where it has not been written.
pub open spec fn cell_value(mem: TapeView, t: RuntimeTapeView, idx: int) -> ValueView {
    match t.pointer(idx) {
        Some(p) => match read_ptr(mem, p) {
            Some(v) => v,
            None => ValueView::Number(zero_bits()),
        },
        None => ValueView::Number(zero_bits()),
    }
}

/// Whether every cell of `t` points to something `mem` holds.
pub open spec fn points_into(t: RuntimeTapeView, mem: TapeView) -> bool {
    &&& forall|k: ArraySize| #[trigger] t.left.contains_key(k) ==> read_ptr(mem, t.left[k]) is Some
    &&& forall|k: ArraySize| #[trigger] t.right.contains_key(k) ==> read_ptr(mem, t.right[k]) is Some
}

/// The value of a `u32` read as an `i32`, as `cast_signed` reads it.
pub open spec fn signed(i: u32) -> int {
    if i <= i32::MAX {
        i as int
    } else {
        i - 0x1_0000_0000
    }
}

/// Whether copying `values_within` cells starting at `idx` stays within the cells an
/// `i32` can name, as every `idx + i` it reads must.
pub open spec fn clone_range_ok(idx: i32, values_within: u32) -> bool {
    forall|i: u32| i < values_within ==> i32::MIN < #[trigger] (idx + signed(i)) <= i32::MAX
}

/// The tape that copies `values_within` cells of `t` starting at `idx` to the cells
/// from zero on.
pub open spec fn cloned_cells(t: RuntimeTapeView, idx: i32, values_within: u32) -> RuntimeTapeView {
    RuntimeTapeView {
        cursor: 0,
        left: Map::empty(),
        right: Map::new(
            |i: u32| i < values_within && t.pointer(idx + signed(i)) is Some,
            |i: u32| t.pointer(idx + signed(i))->0,
        ),
    }
}

/// A tape: cells indexed by any `i32`, each pointing into memory, and a cursor.
#[derive(Clone)]
pub struct RuntimeTape {
    values_right: TapeMap,
    values_left: TapeMap,
    pub cursor: i32,
}

impl View for RuntimeTape {
    type V = RuntimeTapeView;

    closed spec fn view(&self) -> RuntimeTapeView {
        RuntimeTapeView { left: self.values_left@, right: self.values_right@, cursor: self.cursor }
    }
}

/// The signed value of `i`, computed without a cast that could wrap.
fn to_signed(i: u32) -> (s: i32)
    ensures
        s == signed(i),
{
    if i <= 0x7fff_ffff {
        i as i32
    } else {
        let low: i32 = (i - 0x8000_0000) as i32;
        low - 0x7fff_ffff - 1
    }
}

/// Takes the next item of `it`: the first of those it has left to give, if any.
fn advance<I: Iterator>(it: &mut I) -> (r: Option<I::Item>)
    requires
        (*old(it)).obeys_prophetic_iter_laws(),
        (*old(it)).decrease() is Some,
    ensures
        (*final(it)).obeys_prophetic_iter_laws(),
        (*final(it)).decrease() is Some,
        (*old(it)).remaining().len() > 0 ==> {
            &&& (*final(it)).remaining() == (*old(it)).remaining().drop_first()
            &&& r == Some((*old(it)).remaining()[0])
            &&& decreases_to!((*old(it)).decrease()->0 => (*final(it)).decrease()->0)
        },
        (*old(it)).remaining().len() == 0 ==> r is None && (*final(it)).remaining() == (*old(it)).remaining(),
{
    it.next()
}

impl RuntimeTape {
    /// The half of the tape that holds cell `idx`, and its key there.
    fn container(&self, idx: i32) -> (r: (&TapeMap, u32))
        requires
            idx != i32::MIN,
        ensures
            r.0@ == self@.side(idx as int),
            r.1 == cell_key(idx as int),
    {
        if idx < 0 {
            (&self.values_left, (-idx - 1) as u32)
        } else {
            (&self.values_right, idx as u32)
        }
    }

    /// Writes `ptr` to the cell `idx`.
    fn put(&mut self, idx: i32, ptr: TaggedPtr)
        requires
            idx != i32::MIN,
        ensures
            final(self)@ == old(self)@.with_cell(idx as int, ptr),
    {
        if idx < 0 {
            self.values_left.insert((-idx - 1) as u32, ptr);
        } else {
            self.values_right.insert(idx as u32, ptr);
        }
    }

    /// The cells the tape holds: with `centered`, first those of the sixteen cells
    /// from `centered` on that hold something, in order and under their keys; then every
    /// cell at or right of zero, by ascending key.
    pub fn get_values(&self, centered: Option<i32>) -> (r: Vec<(ArraySize, TaggedPtr)>)
        requires
            centered != Some(i32::MIN),
        ensures
            ({
                let scoped = match centered {
                    Some(idx) => scoped_cells(self@.side(idx as int), cell_key(idx as int), 16),
                    None => Seq::empty(),
                };
                let base = r@.skip(scoped.len() as int);
                &&& r@.take(scoped.len() as int) == scoped
                &&& scoped.len() <= r@.len()
                &&& keys_ascending(base)
                &&& base.len() == self@.right.len()
                &&& forall|k: ArraySize, p: TaggedPtr| base.contains((k, p)) <==> (self@.right.contains_key(k) && self@.right[k] == p)
            }),
    {
        let mut out: Vec<(ArraySize, TaggedPtr)> = Vec::new();
        match centered {
            Some(idx) => {
                let (container, index) = self.container(idx);
                let mut i: u32 = 0;
                while i < 16
                    invariant
                        i <= 16,
                        index <= 0x8000_0000,
                        out@ == scoped_cells(container@, index, i as int),
                    decreases 16 - i,
                {
                    match container.get(&(index + i)) {
                        Some(x) => out.push((index + i, *x)),
                        None => {},
                    }
                    i = i + 1;
                }
            },
            None => {},
        }
        let sorted = self.right_cells();
        let ghost start = out@;
        let mut n: usize = 0;
        while n < sorted.len()
            invariant
                n <= sorted@.len(),
                out@ == start + sorted@.take(n as int),
            decreases sorted@.len() - n,
        {
            out.push(sorted[n]);
            n = n + 1;
            assert(out@ =~= start + sorted@.take(n as int));
        }
        proof {
            assert(sorted@.take(n as int) =~= sorted@);
            assert(out@.take(start.len() as int) =~= start);
            assert(out@.skip(start.len() as int) =~= sorted@);
        }
        out
    }

    /// The cells at and right of zero, by ascending key.
    fn right_cells(&self) -> (r: Vec<(ArraySize, TaggedPtr)>)
        ensures
            keys_ascending(r@),
            r@.len() == self@.right.len(),
            forall|k: ArraySize, p: TaggedPtr| r@.contains((k, p)) <==> (self@.right.contains_key(k) && self@.right[k] == p),
    {
        let mut out: Vec<(ArraySize, TaggedPtr)> = Vec::new();
        let mut iter = self.values_right.iter();
        let ghost all = spec_hash_map_iter(&self.values_right).remaining();
        let ghost m = self.values_right@;
        let ghost mut c: int = 0;
        proof {
            assert(all.skip(0) =~= all);
            assert(all.no_duplicates());
            assert forall|i: int| 0 <= i < all.len() implies m.contains_key(*#[trigger] all[i].0) && m[*all[i].0] == *all[i].1 by {
                assert(all.contains(all[i]));
            }
        }
        loop
            invariant
                iter.obeys_prophetic_iter_laws(),
                0 <= c <= all.len(),
                iter.remaining() == all.skip(c),
                iter.decrease() is Some,
                m == self.values_right@,
                all == spec_hash_map_iter(&self.values_right).remaining(),
                all.no_duplicates(),
                forall|i: int| 0 <= i < all.len() ==> m.contains_key(*#[trigger] all[i].0) && m[*all[i].0] == *all[i].1,
                out@.len() == c,
                keys_ascending(out@),
                forall|x: (ArraySize, TaggedPtr)| out@.contains(x) <==> exists|j: int| 0 <= j < c && x == (*all[j].0, *all[j].1),
            ensures
                c == all.len(),
                out@.len() == c,
                keys_ascending(out@),
                forall|x: (ArraySize, TaggedPtr)| out@.contains(x) <==> exists|j: int| 0 <= j < c && x == (*all[j].0, *all[j].1),
            decreases iter.decrease()->0,
        {
            match advance(&mut iter) {
                Some(kv) => {
                    proof {
                        assert(all.skip(c).drop_first() =~= all.skip(c + 1));
                        assert(*kv.0 == *all[c].0 && *kv.1 == *all[c].1);
                    }
                    let k: ArraySize = *kv.0;
                    let p: TaggedPtr = *kv.1;
                    proof {
                        assert forall|t: int| 0 <= t < out@.len() implies #[trigger] out@[t].0 != k by {
                            assert(out@.contains(out@[t]));
                            let j = choose|j: int| 0 <= j < c && out@[t] == (*all[j].0, *all[j].1);
                            if out@[t].0 == k {
                                assert(all[j] != all[c]);
                                assert(m[*all[j].0] == *all[j].1);
                            }
                        }
                    }
                    let mut j: usize = 0;
                    while j < out.len() && out[j].0 < k
                        invariant
                            j <= out@.len(),
                            forall|t: int| 0 <= t < j ==> #[trigger] out@[t].0 < k,
                        decreases out@.len() - j,
                    {
                        j = j + 1;
                    }
                    let ghost before = out@;
                    proof {
                        assert forall|t: int| j <= t < before.len() implies #[trigger] before[t].0 > k by {
                            assert(before[j as int].0 != k);
                            if t > j {
                                assert(before[j as int].0 < before[t].0);
                            }
                        }
                    }
                    out.insert(j, (k, p));
                    proof {
                        before.insert_ensures(j as int, (k, p));
                        let a = out@;
                        assert forall|x: int, y: int| 0 <= x < y < a.len() implies #[trigger] a[x].0 < #[trigger] a[y].0 by {
                            if y < j {
                            } else if y == j {
                            } else if x < j {
                                assert(a[y] == before[y - 1]);
                            } else if x == j {
                                assert(a[y] == before[y - 1]);
                            } else {
                                assert(a[x] == before[x - 1] && a[y] == before[y - 1]);
                            }
                        }
                        assert forall|x: (ArraySize, TaggedPtr)| a.contains(x) <==> exists|i: int| 0 <= i < c + 1 && x == (*all[i].0, *all[i].1) by {
                            if a.contains(x) {
                                let t = choose|t: int| 0 <= t < a.len() && a[t] == x;
                                if t < j {
                                    assert(before.contains(before[t]));
                                } else if t > j {
                                    assert(a[t] == before[t - 1]);
                                    assert(before.contains(before[t - 1]));
                                }
                            }
                            if exists|i: int| 0 <= i < c + 1 && x == (*all[i].0, *all[i].1) {
                                let i = choose|i: int| 0 <= i < c + 1 && x == (*all[i].0, *all[i].1);
                                if i == c {
                                    assert(a[j as int] == x);
                                } else {
                                    assert(before.contains(x));
                                    let t = choose|t: int| 0 <= t < before.len() && before[t] == x;
                                    if t < j {
                                        assert(a[t] == x);
                                    } else {
                                        assert(a[t + 1] == x);
                                    }
                                }
                            }
                        }
                        c = c + 1;
                    }
                },
                None => {
                    break;
                },
            }
        }
        proof {
            assert(out@.len() == m.len());
            assert forall|k: ArraySize, p: TaggedPtr| out@.contains((k, p)) <==> (m.contains_key(k) && m[k] == p) by {
                if m.contains_key(k) && m[k] == p {
                    assert(all.contains((&k, &m[k])));
                    let i = choose|i: int| 0 <= i < all.len() && all[i] == (&k, &m[k]);
                    assert((k, p) == (*all[i].0, *all[i].1));
                }
            }
        }
        out
    }

    pub fn new() -> (t: Self)
        ensures
            t@.left == Map::<ArraySize, TaggedPtr>::empty(),
            t@.right == Map::<ArraySize, TaggedPtr>::empty(),
            t@.cursor == 0,
    {
        RuntimeTape { values_left: HashMap::new(), values_right: HashMap::new(), cursor: 0 }
    }

    /// Where the cell `idx` points, where it has been written.
    fn get_pointer(&self, idx: i32) -> (r: Option<&TaggedPtr>)
        requires
            idx != i32::MIN,
        ensures
            match r {
                Some(p) => self@.pointer(idx as int) == Some(*p),
                None => self@.pointer(idx as int) is None,
            },
    {
        let (container, i) = self.container(idx);
        container.get(&i)
    }

    /// The value of the cell `idx`: zero where it has not been written.
    pub fn get(&self, idx: i32, guard: &MutatorView) -> (r: Result<Value, RuntimeError>)
        requires
            idx != i32::MIN,
        ensures
            r matches Ok(v) && v@ == cell_value(guard.memory(), self@, idx as int),
    {
        let (container, i) = self.container(idx);
        match guard.get_value(i, container) {
            Some(v) => Ok(v),
            None => Ok(Value::Number(0)),
        }
    }

    /// The value of the cell under the cursor.
    pub fn get_current(&self, guard: &MutatorView) -> (r: Result<Value, RuntimeError>)
        requires
            self@.cursor != i32::MIN,
        ensures
            r matches Ok(v) && v@ == cell_value(guard.memory(), self@, self@.cursor as int),
    {
        self.get(self.cursor, guard)
    }

    /// Where the cursor stands.
    pub fn cursor_index(&self) -> (c: i32)
        ensures
            c == self@.cursor,
    {
        self.cursor
    }

    pub fn set_cursor(&mut self, idx: i32)
        ensures
            final(self)@ == (RuntimeTapeView { cursor: idx, ..old(self)@ }),
    {
        self.cursor = idx;
    }

    pub fn move_cursor(&mut self, by: i32)
        requires
            i32::MIN <= old(self)@.cursor + by <= i32::MAX,
        ensures
            final(self)@ == (RuntimeTapeView { cursor: (old(self)@.cursor + by) as i32, ..old(self)@ }),
    {
        self.cursor = self.cursor + by;
    }

    /// Stores `val` in the cell under the cursor: it is placed on the heap, and the cell
    /// points to it from then on.
    pub fn set_value(&mut self, guard: &mut MutatorView, val: Value) -> (r: Result<(), RuntimeError>)
        requires
            old(self)@.cursor != i32::MIN,
        ensures
            r is Ok,
            final(guard).memory() == with_object(old(guard).memory(), stored_object(val@)),
            final(self)@ == old(self)@.with_cell(old(self)@.cursor as int, next_object(old(guard).memory())),
    {
        let cursor = self.cursor;
        if cursor < 0 {
            guard.upsert_value((-cursor - 1) as u32, val, &mut self.values_left);
        } else {
            guard.upsert_value(cursor as u32, val, &mut self.values_right);
        }
        Ok(())
    }

    /// A tape whose cells from zero on hold what the `values_within` cells of this tape
    /// from `idx` on hold, with its cursor at zero.
    pub fn clone_into(&self, idx: i32, values_within: ArraySize) -> (t: RuntimeTape)
        requires
            clone_range_ok(idx, values_within),
        ensures
            t@ == cloned_cells(self@, idx, values_within),
    {
        let left: TapeMap = HashMap::new();
        let mut right: TapeMap = HashMap::new();
        let mut i: u32 = 0;
        while i < values_within
            invariant
                i <= values_within,
                clone_range_ok(idx, values_within),
                left@ == Map::<ArraySize, TaggedPtr>::empty(),
                right@ == cloned_cells(self@, idx, i).right,
            decreases values_within - i,
        {
            assert(i32::MIN < idx + signed(i) <= i32::MAX);
            let j: i32 = idx + to_signed(i);
            match self.get_pointer(j) {
                Some(x) => {
                    right.insert(i, *x);
                },
                None => {},
            }
            assert(right@ =~= cloned_cells(self@, idx, (i + 1) as u32).right);
            i = i + 1;
        }
        RuntimeTape { values_left: left, values_right: right, cursor: 0 }
    }
}

/// Whether the keys of `cells` strictly ascend.
pub open spec fn keys_ascending(cells: Seq<(ArraySize, TaggedPtr)>) -> bool {
    forall|i: int, j: int| 0 <= i < j < cells.len() ==> #[trigger] cells[i].0 < #[trigger] cells[j].0
}

/// The cells among the `n` keys from `index` on that `side` holds, in order, each with
/// its key.
pub open spec fn scoped_cells(side: Map<ArraySize, TaggedPtr>, index: u32, n: int) -> Seq<(ArraySize, TaggedPtr)>
    decreases n,
{
    if n <= 0 {
        Seq::empty()
    } else {
        let before = scoped_cells(side, index, n - 1);
        let k = (index + n - 1) as u32;
        if side.contains_key(k) {
            before.push((k, side[k]))
        } else {
            before
        }
    }
}

/// A value stored on the tape reads back as itself, except an error, which reads back
/// as the text of its message.
pub proof fn lemma_stored_value(v: ValueView)
    ensures
        object_value(stored_object(v)) == match v {
            ValueView::Error(e) => ValueView::String(runtime_error_text(e)),
            _ => v,
        },
{
}

/// Allocating leaves every pointer that pointed to something pointing to the same thing.
pub proof fn lemma_alloc_keeps_reads(mem: TapeView, object: HeapObjectView, n: u64, ptr: TaggedPtr)
    requires
        read_ptr(mem, ptr) is Some,
    ensures
        read_ptr(with_object(mem, object), ptr) == read_ptr(mem, ptr),
        read_ptr(with_literal(mem, n), ptr) == read_ptr(mem, ptr),
{
}

/// Reading the cell under the cursor right after storing a value there gives back the
/// value stored.
pub proof fn lemma_read_after_write(mem: TapeView, t: RuntimeTapeView, v: ValueView)
    requires
        t.cursor != i32::MIN,
        mem.objects.len() <= usize::MAX,
    ensures
        cell_value(
            with_object(mem, stored_object(v)),
            t.with_cell(t.cursor as int, next_object(mem)),
            t.cursor as int,
        ) == object_value(stored_object(v)),
{
    let idx = t.cursor as int;
    let t2 = t.with_cell(idx, next_object(mem));
    assert(t2.side(idx).contains_key(cell_key(idx)));
}

/// Storing a value under the cursor changes no other cell, where every cell points to
/// something in memory.
pub proof fn lemma_write_frame(mem: TapeView, t: RuntimeTapeView, v: ValueView, idx: i32)
    requires
        t.cursor != i32::MIN,
        idx != i32::MIN,
        idx != t.cursor,
        points_into(t, mem),
    ensures
        cell_value(
            with_object(mem, stored_object(v)),
            t.with_cell(t.cursor as int, next_object(mem)),
            idx as int,
        ) == cell_value(mem, t, idx as int),
{
    let c = t.cursor as int;
    let i = idx as int;
    let t2 = t.with_cell(c, next_object(mem));
    assert((c < 0) == (i < 0) ==> cell_key(c) != cell_key(i));
    assert(t2.pointer(i) == t.pointer(i));
    if t.pointer(i) is Some {
        let p = t.pointer(i)->0;
        if i < 0 {
            assert(t.left.contains_key(cell_key(i)));
        } else {
            assert(t.right.contains_key(cell_key(i)));
        }
        lemma_alloc_keeps_reads(mem, stored_object(v), 0, p);
    }
}

/// Storing a value keeps every cell pointing to something in memory.
pub proof fn lemma_write_keeps_points_into(mem: TapeView, t: RuntimeTapeView, v: ValueView)
    requires
        t.cursor != i32::MIN,
        points_into(t, mem),
    ensures
        points_into(
            t.with_cell(t.cursor as int, next_object(mem)),
            with_object(mem, stored_object(v)),
        ),
{
    let m2 = with_object(mem, stored_object(v));
    let t2 = t.with_cell(t.cursor as int, next_object(mem));
    assert forall|k: ArraySize| #[trigger] t2.left.contains_key(k) implies read_ptr(m2, t2.left[k]) is Some by {
        if t.left.contains_key(k) && t2.left[k] == t.left[k] {
            lemma_alloc_keeps_reads(mem, stored_object(v), 0, t.left[k]);
        }
    }
    assert forall|k: ArraySize| #[trigger] t2.right.contains_key(k) implies read_ptr(m2, t2.right[k]) is Some by {
        if t.right.contains_key(k) && t2.right[k] == t.right[k] {
            lemma_alloc_keeps_reads(mem, stored_object(v), 0, t.right[k]);
        }
    }
}

/// A tape that has not been written reads zero in every cell.
pub proof fn lemma_fresh_tape_reads_zero(mem: TapeView, t: RuntimeTapeView, idx: int)
    requires
        t.left == Map::<ArraySize, TaggedPtr>::empty(),
        t.right == Map::<ArraySize, TaggedPtr>::empty(),
    ensures
        cell_value(mem, t, idx) == ValueView::Number(zero_bits()),
{
}

/// A copy of `values_within` cells from `idx` on reads, at `i`, what the original
/// reads at `idx + i`, and zero everywhere else.
pub proof fn lemma_clone_reads(mem: TapeView, t: RuntimeTapeView, idx: i32, values_within: u32, i: int)
    requires
        clone_range_ok(idx, values_within),
        i32::MIN < i <= i32::MAX,
    ensures
        0 <= i < values_within ==> cell_value(mem, cloned_cells(t, idx, values_within), i)
            == cell_value(mem, t, idx + i),
        !(0 <= i < values_within) ==> cell_value(mem, cloned_cells(t, idx, values_within), i)
            == ValueView::Number(zero_bits()),
{
    let c = cloned_cells(t, idx, values_within);
    if 0 <= i < values_within {
        let k = i as u32;
        assert(signed(k) == i);
        assert(cell_key(i) == k);
    } else if i >= 0 {
        assert(cell_key(i) == i as u32);
        assert(!c.right.contains_key(i as u32));
    }
}

} // verus!
