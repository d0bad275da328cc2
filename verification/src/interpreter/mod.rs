//! The interpreter's bookkeeping: the names of adventures and where Doug notation
//! points on the tape.
pub mod error;
pub mod step;

use vstd::prelude::*;

use vstd::arithmetic::power2::{lemma_pow2_unfold, pow2};

use crate::parser::ast::{Reference, ReferenceView};
use crate::runtime::RuntimeError;
use crate::text::{contains_chars, contains_seq, push_chars, str_chars, str_eq, string_from_chars};

verus! {

/// Whether no name occurs twice among `entries`.
pub open spec fn names_distinct(entries: Seq<(Seq<char>, i32)>) -> bool {
    forall|i: int, j: int| 0 <= i < j < entries.len() ==> entries[i].0 != entries[j].0
}

/// The slot `entries` gives `name`, if it names one.
pub open spec fn lookup(entries: Seq<(Seq<char>, i32)>, name: Seq<char>) -> Option<i32>
    decreases entries.len(),
{
    if entries.len() == 0 {
        None
    } else if entries.last().0 == name {
        Some(entries.last().1)
    } else {
        lookup(entries.drop_last(), name)
    }
}

/// `entries` with `name` given the slot `index`: in place where the name is held,
/// else added at the end.
pub open spec fn put_entry(entries: Seq<(Seq<char>, i32)>, name: Seq<char>, index: i32) -> Seq<(Seq<char>, i32)> {
    if exists|i: int| 0 <= i < entries.len() && #[trigger] entries[i].0 == name {
        let i = choose|i: int| 0 <= i < entries.len() && #[trigger] entries[i].0 == name;
        entries.update(i, (name, index))
    } else {
        entries.push((name, index))
    }
}

/// The names of the adventures defined so far, each with its tape slot.
pub struct AdventureNames {
    entries: Vec<(String, i32)>,
}

impl AdventureNames {
    /// The names and their slots.
    pub closed spec fn entries(&self) -> Seq<(Seq<char>, i32)> {
        Seq::new(self.entries@.len(), |i: int| (self.entries@[i].0@, self.entries@[i].1))
    }

    /// The slot of `name`, if it has one.
    pub open spec fn slot(&self, name: Seq<char>) -> Option<i32> {
        lookup(self.entries(), name)
    }

    /// No name is held twice.
    pub closed spec fn wf(&self) -> bool {
        names_distinct(self.entries())
    }

    pub fn new() -> (n: Self)
        ensures
            n.wf(),
            n.entries() == Seq::<(Seq<char>, i32)>::empty(),
            forall|name: Seq<char>| n.slot(name) is None,
    {
        let n = AdventureNames { entries: Vec::new() };
        assert(n.entries() =~= Seq::<(Seq<char>, i32)>::empty());
        n
    }

    /// Where `name` is held, if it is.
    fn position(&self, name: &str) -> (r: Option<usize>)
        requires
            self.wf(),
        ensures
            match r {
                Some(i) => i < self.entries@.len() && self.entries()[i as int].0 == name@,
                None => forall|i: int| 0 <= i < self.entries@.len() ==> self.entries()[i].0 != name@,
            },
    {
        let mut i: usize = 0;
        while i < self.entries.len()
            invariant
                i <= self.entries@.len(),
                forall|j: int| 0 <= j < i ==> self.entries()[j].0 != name@,
            decreases self.entries@.len() - i,
        {
            if str_eq(self.entries[i].0.as_str(), name) {
                return Some(i);
            }
            i = i + 1;
        }
        None
    }

    /// The slot of the adventure `name`, if one was defined.
    pub fn get(&self, name: &str) -> (r: Option<i32>)
        requires
            self.wf(),
        ensures
            r == self.slot(name@),
    {
        let ghost e = self.entries();
        match self.position(name) {
            Some(i) => {
                proof {
                    lemma_lookup_at(e, i as int);
                }
                Some(self.entries[i].1)
            },
            None => {
                proof {
                    lemma_lookup_absent(e, name@);
                }
                None
            },
        }
    }

    /// Gives `name` the slot `index`, in place of any slot it had.
    pub fn insert(&mut self, name: String, index: i32)
        requires
            old(self).wf(),
        ensures
            final(self).wf(),
            final(self).entries() == put_entry(old(self).entries(), name@, index),
            final(self).slot(name@) == Some(index),
            forall|other: Seq<char>| other != name@ ==> final(self).slot(other) == old(self).slot(other),
    {
        let ghost before = self.entries();
        let ghost nv = name@;
        match self.position(name.as_str()) {
            Some(i) => {
                proof {
                    let j = choose|j: int| 0 <= j < before.len() && #[trigger] before[j].0 == nv;
                    assert(before[i as int].0 == nv);
                    assert(j == i);
                }
                self.entries.set(i, (name, index));
                proof {
                    assert(self.entries() =~= before.update(i as int, (nv, index)));
                    lemma_lookup_update(before, i as int, index);
                }
            },
            None => {
                self.entries.push((name, index));
                proof {
                    assert(self.entries() =~= before.push((nv, index)));
                    assert(self.entries().drop_last() =~= before);
                }
            },
        }
    }
}

/// Giving a name a slot keeps the names distinct, and the name looks that slot up.
pub proof fn lemma_put_entry(e: Seq<(Seq<char>, i32)>, name: Seq<char>, index: i32)
    requires
        names_distinct(e),
    ensures
        names_distinct(put_entry(e, name, index)),
        lookup(put_entry(e, name, index), name) == Some(index),
{
    if exists|i: int| 0 <= i < e.len() && #[trigger] e[i].0 == name {
        let i = choose|i: int| 0 <= i < e.len() && #[trigger] e[i].0 == name;
        lemma_lookup_update(e, i, index);
        assert(e.update(i, (e[i].0, index)) == put_entry(e, name, index));
    } else {
        let p = e.push((name, index));
        assert(p.drop_last() =~= e);
        assert forall|a: int, b: int| 0 <= a < b < p.len() implies p[a].0 != p[b].0 by {
            if b == p.len() - 1 {
                assert(e[a].0 != name);
            } else {
                assert(p[a] == e[a] && p[b] == e[b]);
            }
        }
    }
}

/// Where the names are distinct, the name at `i` looks up its own slot.
proof fn lemma_lookup_at(e: Seq<(Seq<char>, i32)>, i: int)
    requires
        names_distinct(e),
        0 <= i < e.len(),
    ensures
        lookup(e, e[i].0) == Some(e[i].1),
    decreases e.len(),
{
    if i < e.len() - 1 {
        assert(e.last().0 != e[i].0);
        assert(e.drop_last()[i] == e[i]);
        lemma_lookup_at(e.drop_last(), i);
    }
}

/// A name held nowhere looks up nothing.
proof fn lemma_lookup_absent(e: Seq<(Seq<char>, i32)>, name: Seq<char>)
    requires
        forall|i: int| 0 <= i < e.len() ==> e[i].0 != name,
    ensures
        lookup(e, name) is None,
    decreases e.len(),
{
    if e.len() > 0 {
        assert(e.last().0 != name);
        lemma_lookup_absent(e.drop_last(), name);
    }
}

/// Replacing the slot at `i` changes what its name looks up, and nothing else.
proof fn lemma_lookup_update(e: Seq<(Seq<char>, i32)>, i: int, index: i32)
    requires
        names_distinct(e),
        0 <= i < e.len(),
    ensures
        names_distinct(e.update(i, (e[i].0, index))),
        lookup(e.update(i, (e[i].0, index)), e[i].0) == Some(index),
        forall|other: Seq<char>| other != e[i].0 ==> lookup(e.update(i, (e[i].0, index)), other) == lookup(e, other),
    decreases e.len(),
{
    let u = e.update(i, (e[i].0, index));
    assert forall|a: int, b: int| 0 <= a < b < u.len() implies u[a].0 != u[b].0 by {
        assert(u[a].0 == e[a].0 && u[b].0 == e[b].0);
    }
    lemma_lookup_at(u, i);
    assert forall|other: Seq<char>| other != e[i].0 implies lookup(u, other) == lookup(e, other) by {
        lemma_lookup_other(e, i, index, other);
    }
}

proof fn lemma_lookup_other(e: Seq<(Seq<char>, i32)>, i: int, index: i32, other: Seq<char>)
    requires
        0 <= i < e.len(),
        other != e[i].0,
    ensures
        lookup(e.update(i, (e[i].0, index)), other) == lookup(e, other),
    decreases e.len(),
{
    let u = e.update(i, (e[i].0, index));
    if i < e.len() - 1 {
        assert(u.drop_last() =~= e.drop_last().update(i, (e[i].0, index)));
        assert(e.drop_last()[i] == e[i]);
        lemma_lookup_other(e.drop_last(), i, index, other);
    } else {
        assert(u.drop_last() =~= e.drop_last());
    }
}

/// What keeps a Doug reference from pointing anywhere.
pub enum DougIndexFault {
    /// The reference starts with a name that no adventure has.
    NotDefined(Seq<char>),
    /// A name stands after the start of the reference.
    VariableName,
}

/// How far a chain of `count` Dougs moves: two to the power of `count - 1` as an
/// `i32`, the chain of thirty-two wrapping to `i32::MIN`; no chain is empty or longer.
pub open spec fn chain_value(count: usize) -> Option<int> {
    if 1 <= count <= 32 {
        Some(if count == 32 { i32::MIN as int } else { pow2((count - 1) as nat) as int })
    } else {
        None
    }
}

/// Whether `x` is an `i32`.
pub open spec fn in_i32(x: int) -> bool {
    i32::MIN <= x <= i32::MAX
}

/// The index after the chains `1..n` of `chains` move from `res`, alternately forward
/// and back: the first one forward where the reference started from the cursor, back
/// where it started from a name. `None` where a chain is empty or too long, or the
/// index leaves the `i32`s.
pub open spec fn doug_fold(chains: Seq<ReferenceView>, n: int, from_cursor: bool, res: int) -> Option<Result<int, DougIndexFault>>
    decreases n,
{
    if n <= 1 {
        Some(Ok(res))
    } else {
        match doug_fold(chains, n - 1, from_cursor, res) {
            None => None,
            Some(Err(e)) => Some(Err(e)),
            Some(Ok(r)) => match chains[n - 1] {
                ReferenceView::Variable(_) => Some(Err(DougIndexFault::VariableName)),
                ReferenceView::Doug(c) => match chain_value(c.count) {
                    None => None,
                    Some(v) => {
                        let forward = ((n - 2) % 2 == 1) == from_cursor;
                        let r2 = if forward { r + v } else { r - v };
                        if in_i32(r2) {
                            Some(Ok(r2))
                        } else {
                            None
                        }
                    },
                },
            },
        }
    }
}

/// The tape index a Doug reference points to from the cursor `start_i`, and whether it
/// points into the main tape (it starts with an adventure's name). An empty reference
/// points to twice the cursor. `None` where the index cannot be computed in `i32`s.
pub open spec fn doug_notation_index(
    names: Seq<(Seq<char>, i32)>,
    chains: Seq<ReferenceView>,
    start_i: i32,
) -> Option<Result<(int, bool), DougIndexFault>> {
    let first: Option<Result<(int, bool), DougIndexFault>> = if chains.len() == 0 {
        Some(Ok((start_i as int, true)))
    } else {
        match chains[0] {
            ReferenceView::Variable(name) => match lookup(names, name) {
                Some(v) => Some(Ok((v as int, false))),
                None => Some(Err(DougIndexFault::NotDefined(name))),
            },
            ReferenceView::Doug(c) => match chain_value(c.count) {
                Some(v) => Some(Ok((v, true))),
                None => None,
            },
        }
    };
    match first {
        None => None,
        Some(Err(e)) => Some(Err(e)),
        Some(Ok((sv, from_cursor))) => {
            let r0 = if from_cursor { start_i + sv } else { sv };
            if !in_i32(r0) {
                None
            } else {
                match doug_fold(chains, chains.len() as int, from_cursor, r0) {
                    None => None,
                    Some(Err(e)) => Some(Err(e)),
                    Some(Ok(r)) => Some(Ok((r, !from_cursor))),
                }
            }
        },
    }
}

/// Whether `r` is the error `f` stands for.
pub open spec fn fault_error(f: DougIndexFault, r: RuntimeError) -> bool {
    match f {
        DougIndexFault::NotDefined(name) => r matches RuntimeError::NotDefined(s) && s@ == name,
        DougIndexFault::VariableName => r matches RuntimeError::Unexpected(s) && s@ == "variable name"@,
    }
}

/// How far a chain of `count` Dougs moves, where it can.
fn chain_move(count: usize) -> (r: Option<i32>)
    ensures
        match chain_value(count) {
            Some(v) => r == Some(v as i32) && v == r->0,
            None => r is None,
        },
{
    if count == 0 || count > 32 {
        return None;
    }
    if count == 32 {
        return Some(i32::MIN);
    }
    let mut v: i64 = 1;
    let mut k: usize = 1;
    proof {
        vstd::arithmetic::power2::lemma2_to64();
    }
    while k < count
        invariant
            1 <= k <= count,
            count <= 31,
            v == pow2((k - 1) as nat),
            v <= 0x4000_0000,
        decreases count - k,
    {
        proof {
            lemma_pow2_unfold(k as nat);
            vstd::arithmetic::power2::lemma2_to64();
            if k < 30 {
                vstd::arithmetic::power2::lemma_pow2_strictly_increases(k as nat, 30);
            }
        }
        v = v * 2;
        k = k + 1;
    }
    Some(v as i32)
}

/// The tape index a Doug reference points to from the cursor `start_i`, and whether it
/// points into the main tape; `None` where the index cannot be computed in `i32`s.
pub fn checked_doug_notation_index(names: &AdventureNames, chains: &[Reference], start_i: i32) -> (r: Option<Result<(i32, bool), RuntimeError>>)
    requires
        names.wf(),
    ensures
        match doug_notation_index(names.entries(), crate::parser::ast::references_view(chains@), start_i) {
            None => r is None,
            Some(Ok((idx, main))) => r matches Some(Ok((i, m))) && i == idx && m == main,
            Some(Err(f)) => r matches Some(Err(e)) && fault_error(f, e),
        },
{
    let ghost cv = crate::parser::ast::references_view(chains@);
    let (starting, from_cursor): (i32, bool) = if chains.len() == 0 {
        (start_i, true)
    } else {
        match &chains[0] {
            Reference::Variable(name) => match names.get(name.as_str()) {
                Some(v) => (v, false),
                None => {
                    let s = str_chars(name.as_str());
                    return Some(Err(RuntimeError::NotDefined(string_from_chars(s.as_slice()))));
                },
            },
            Reference::Doug(c) => match chain_move(c.count) {
                Some(v) => (v, true),
                None => {
                    return None;
                },
            },
        }
    };
    let r0: i64 = if from_cursor { start_i as i64 + starting as i64 } else { starting as i64 };
    if r0 < i32::MIN as i64 || r0 > i32::MAX as i64 {
        return None;
    }
    let mut res: i32 = r0 as i32;
    let n = chains.len();
    let mut k: usize = 1;
    let ghost whole = doug_notation_index(names.entries(), cv, start_i);
    assert(whole == match doug_fold(cv, n as int, from_cursor, r0 as int) {
        None => None,
        Some(Err(e)) => Some(Err(e)),
        Some(Ok(r)) => Some(Ok((r, !from_cursor))),
    });
    while k < n
        invariant
            1 <= k,
            n == chains@.len(),
            cv == crate::parser::ast::references_view(chains@),
            whole == doug_notation_index(names.entries(), cv, start_i),
            whole == match doug_fold(cv, n as int, from_cursor, r0 as int) {
                None => None,
                Some(Err(e)) => Some(Err(e)),
                Some(Ok(r)) => Some(Ok((r, !from_cursor))),
            },
            k <= n || (n == 0 && k == 1),
            doug_fold(cv, k as int, from_cursor, r0 as int) == Some(Ok::<int, DougIndexFault>(res as int)),
        decreases n - k,
    {
        let v = match &chains[k] {
            Reference::Variable(_) => {
                let s = str_chars("variable name");
                proof {
                    assert(doug_fold(cv, k + 1, from_cursor, r0 as int) == Some(Err::<int, DougIndexFault>(DougIndexFault::VariableName)));
                    lemma_fold_err_stays(cv, (k + 1) as int, n as int, from_cursor, r0 as int);
                }
                return Some(Err(RuntimeError::Unexpected(string_from_chars(s.as_slice()))));
            },
            Reference::Doug(c) => match chain_move(c.count) {
                Some(v) => v,
                None => {
                    proof {
                        lemma_fold_none_stays(cv, (k + 1) as int, n as int, from_cursor, r0 as int);
                    }
                    return None;
                },
            },
        };
        let forward = ((k - 1) % 2 == 1) == from_cursor;
        let r2: i64 = if forward { res as i64 + v as i64 } else { res as i64 - v as i64 };
        if r2 < i32::MIN as i64 || r2 > i32::MAX as i64 {
            proof {
                lemma_fold_none_stays(cv, (k + 1) as int, n as int, from_cursor, r0 as int);
            }
            return None;
        }
        res = r2 as i32;
        k = k + 1;
    }
    assert(doug_fold(cv, n as int, from_cursor, r0 as int) == Some(Ok::<int, DougIndexFault>(res as int)));
    Some(Ok((res, !from_cursor)))
}

/// Once the fold fails, folding more chains keeps the failure.
proof fn lemma_fold_err_stays(chains: Seq<ReferenceView>, k: int, n: int, from_cursor: bool, res: int)
    requires
        k <= n,
        doug_fold(chains, k, from_cursor, res) matches Some(Err(_)),
    ensures
        doug_fold(chains, n, from_cursor, res) == doug_fold(chains, k, from_cursor, res),
    decreases n - k,
{
    if k < n {
        lemma_fold_err_stays(chains, k, n - 1, from_cursor, res);
    }
}

/// Once the fold cannot be computed, folding more chains cannot either.
proof fn lemma_fold_none_stays(chains: Seq<ReferenceView>, k: int, n: int, from_cursor: bool, res: int)
    requires
        k <= n,
        doug_fold(chains, k, from_cursor, res) is None,
    ensures
        doug_fold(chains, n, from_cursor, res) is None,
    decreases n - k,
{
    if k < n {
        lemma_fold_none_stays(chains, k, n - 1, from_cursor, res);
    }
}

/// The tape index a Doug reference points to from the cursor `start_i`, and whether it
/// points into the main tape because the reference starts with an adventure's name.
pub fn get_doug_notation_index(names: &AdventureNames, chains: &[Reference], start_i: i32) -> (r: Result<(i32, bool), RuntimeError>)
    requires
        names.wf(),
        doug_notation_index(names.entries(), crate::parser::ast::references_view(chains@), start_i) is Some,
    ensures
        match doug_notation_index(names.entries(), crate::parser::ast::references_view(chains@), start_i) {
            Some(Ok((idx, main))) => r matches Ok((i, m)) && i == idx && m == main,
            Some(Err(f)) => r matches Err(e) && fault_error(f, e),
            None => false,
        },
{
    match checked_doug_notation_index(names, chains, start_i) {
        Some(r) => r,
        None => Err(RuntimeError::TapeOverFlow),
    }
}

/// Whether a library to search for a foreign function is a file, to open as it is.
pub open spec fn is_library_file(lib: Seq<char>) -> bool {
    ||| contains_seq(lib, seq!['/'])
    ||| contains_seq(lib, ".so"@)
    ||| contains_seq(lib, ".dylib"@)
    ||| contains_seq(lib, ".dll"@)
}

/// The files tried, in order, for the library `lib` when looking for a foreign
/// function: a file as it is; otherwise the usual shared-library names built on it,
/// and the name itself last.
pub open spec fn library_candidates_of(lib: Seq<char>) -> Seq<Seq<char>> {
    if is_library_file(lib) {
        seq![lib]
    } else {
        seq![
            "lib"@ + lib + ".so"@,
            "lib"@ + lib + ".so.6"@,
            "lib"@ + lib + ".so.1"@,
            "lib"@ + lib + ".dylib"@,
            lib,
        ]
    }
}

fn joined(a: &str, b: &[char], c: &str) -> (r: String)
    ensures
        r@ == a@ + b@ + c@,
{
    let mut v = str_chars(a);
    push_chars(&mut v, b);
    let cv = str_chars(c);
    push_chars(&mut v, cv.as_slice());
    string_from_chars(v.as_slice())
}

/// The files tried, in order, for the library `lib` when looking for a foreign function.
pub fn library_candidates(lib: &str) -> (r: Vec<String>)
    ensures
        r@.map_values(|s: String| s@) == library_candidates_of(lib@),
{
    let l = str_chars(lib);
    let slash = ['/'];
    assert(slash@ =~= seq!['/']);
    let file = contains_chars(l.as_slice(), &slash) || contains_chars(l.as_slice(), str_chars(".so").as_slice())
        || contains_chars(l.as_slice(), str_chars(".dylib").as_slice())
        || contains_chars(l.as_slice(), str_chars(".dll").as_slice());
    let mut out: Vec<String> = Vec::new();
    if file {
        out.push(string_from_chars(l.as_slice()));
        assert(out@.map_values(|s: String| s@) =~= seq![lib@]);
    } else {
        out.push(joined("lib", l.as_slice(), ".so"));
        out.push(joined("lib", l.as_slice(), ".so.6"));
        out.push(joined("lib", l.as_slice(), ".so.1"));
        out.push(joined("lib", l.as_slice(), ".dylib"));
        out.push(string_from_chars(l.as_slice()));
        assert(out@.map_values(|s: String| s@) =~= library_candidates_of(lib@));
    }
    out
}

/// The symbols tried, in order, for the foreign function `name`: the name itself, then
/// the name after an underscore.
pub fn symbol_candidates(name: &str) -> (r: Vec<String>)
    ensures
        r@.map_values(|s: String| s@) == seq![name@, seq!['_'] + name@],
{
    let n = str_chars(name);
    let mut under: Vec<char> = Vec::new();
    under.push('_');
    push_chars(&mut under, n.as_slice());
    let mut out: Vec<String> = Vec::new();
    out.push(string_from_chars(n.as_slice()));
    out.push(string_from_chars(under.as_slice()));
    assert(under@ =~= seq!['_'] + name@);
    assert(out@.map_values(|s: String| s@) =~= seq![name@, seq!['_'] + name@]);
    out
}

/// A single Doug chain of `count` moves the cursor forward by two to the power of
/// `count - 1`, on the tape in use.
pub proof fn lemma_single_chain(names: Seq<(Seq<char>, i32)>, count: usize, start_i: i32)
    requires
        1 <= count <= 31,
        in_i32(start_i + pow2((count - 1) as nat)),
    ensures
        doug_notation_index(names, seq![ReferenceView::Doug(crate::parser::ast::DougChain { count })], start_i)
            == Some(Ok::<(int, bool), DougIndexFault>((start_i + pow2((count - 1) as nat), false))),
{
}

/// The number of Dougs in a chain; zero for a name.
pub open spec fn dougs_in(r: ReferenceView) -> nat {
    match r {
        ReferenceView::Doug(c) => c.count as nat,
        ReferenceView::Variable(_) => 0,
    }
}

/// The moves of the Doug chains `first..k` of `chains`: two to the power of one less
/// than each chain's count, added for the first of them, subtracted for the second,
/// added for the third, and so on.
pub open spec fn alternating_moves(chains: Seq<ReferenceView>, first: int, k: int) -> int
    decreases k - first,
{
    if k <= first {
        0
    } else {
        let prev = alternating_moves(chains, first, k - 1);
        let v = pow2((dougs_in(chains[k - 1]) - 1) as nat) as int;
        if (k - 1 - first) % 2 == 0 {
            prev + v
        } else {
            prev - v
        }
    }
}

/// Whether every running total `base` plus the moves of chains `first..k`, for `k` up to
/// `n`, is an `i32`.
pub open spec fn totals_fit(chains: Seq<ReferenceView>, first: int, base: int, n: int) -> bool {
    forall|k: int| 1 <= k <= n ==> #[trigger] in_i32(base + alternating_moves(chains, first, k))
}

/// Whether the chains `first..` of `chains` are all Doug chains of one to thirty-one.
pub open spec fn short_dougs_from(chains: Seq<ReferenceView>, first: int) -> bool {
    forall|j: int|
        first <= j < chains.len() ==> (#[trigger] chains[j] is Doug && 1 <= dougs_in(chains[j]) <= 31)
}

proof fn lemma_fold_alternates(chains: Seq<ReferenceView>, n: int, from_cursor: bool, base: int)
    requires
        1 <= n <= chains.len(),
        short_dougs_from(chains, if from_cursor { 0 } else { 1 }),
        in_i32(base + alternating_moves(chains, if from_cursor { 0 } else { 1 }, 1)),
    ensures
        ({
            let first: int = if from_cursor { 0 } else { 1 };
            doug_fold(chains, n, from_cursor, base + alternating_moves(chains, first, 1)) == if totals_fit(
                chains,
                first,
                base,
                n,
            ) {
                Some(Ok::<int, DougIndexFault>(base + alternating_moves(chains, first, n)))
            } else {
                None
            }
        }),
    decreases n,
{
    let first: int = if from_cursor { 0 } else { 1 };
    if n > 1 {
        lemma_fold_alternates(chains, n - 1, from_cursor, base);
        let c = chains[n - 1];
        assert(c is Doug && 1 <= dougs_in(c) <= 31);
        if totals_fit(chains, first, base, n - 1) {
            if totals_fit(chains, first, base, n) {
            } else {
                let k = choose|k: int| 1 <= k <= n && !#[trigger] in_i32(base + alternating_moves(chains, first, k));
                assert(k == n);
            }
        } else {
            let k = choose|k: int| 1 <= k <= n - 1 && !#[trigger] in_i32(base + alternating_moves(chains, first, k));
            assert(!totals_fit(chains, first, base, n));
        }
    } else {
        assert(totals_fit(chains, first, base, 1) == in_i32(base + alternating_moves(chains, first, 1)));
    }
}

/// A reference of Doug chains `c0 c1 ... cm` read from the cursor `start_i` points to
/// `start_i + 2^(c0-1) - 2^(c1-1) + 2^(c2-1) - ...` on the tape in use, the sign
/// alternating with every chain, where each running total is an `i32`; where one is not,
/// the index cannot be computed.
pub proof fn lemma_doug_chains_alternate(names: Seq<(Seq<char>, i32)>, chains: Seq<ReferenceView>, start_i: i32)
    requires
        chains.len() >= 1,
        short_dougs_from(chains, 0),
    ensures
        doug_notation_index(names, chains, start_i) == if totals_fit(chains, 0, start_i as int, chains.len() as int) {
            Some(Ok::<(int, bool), DougIndexFault>((start_i + alternating_moves(chains, 0, chains.len() as int), false)))
        } else {
            None
        },
{
    let c0 = chains[0];
    assert(c0 is Doug && 1 <= dougs_in(c0) <= 31);
    assert(alternating_moves(chains, 0, 0) == 0);
    assert(alternating_moves(chains, 0, 1) == pow2((dougs_in(c0) - 1) as nat) as int);
    if in_i32(start_i + alternating_moves(chains, 0, 1)) {
        lemma_fold_alternates(chains, chains.len() as int, true, start_i as int);
    } else {
        assert(!totals_fit(chains, 0, start_i as int, chains.len() as int));
    }
}

/// A reference that starts with an adventure's name and goes on with Doug chains
/// `c1 c2 ...` points on the main tape to the adventure's slot `+ 2^(c1-1) - 2^(c2-1) +
/// ...`, the sign alternating with every chain, where each running total is an `i32`.
pub proof fn lemma_named_chains_alternate(names: Seq<(Seq<char>, i32)>, chains: Seq<ReferenceView>, start_i: i32)
    requires
        chains.len() >= 1,
        chains[0] is Variable,
        lookup(names, chains[0]->Variable_0) is Some,
        short_dougs_from(chains, 1),
    ensures
        ({
            let slot = lookup(names, chains[0]->Variable_0)->0 as int;
            doug_notation_index(names, chains, start_i) == if totals_fit(chains, 1, slot, chains.len() as int) {
                Some(Ok::<(int, bool), DougIndexFault>((slot + alternating_moves(chains, 1, chains.len() as int), true)))
            } else {
                None
            }
        }),
{
    let slot = lookup(names, chains[0]->Variable_0)->0 as int;
    assert(alternating_moves(chains, 1, 1) == 0);
    lemma_fold_alternates(chains, chains.len() as int, false, slot);
}

/// A reference that is just an adventure's name points to the adventure's slot on the
/// main tape.
pub proof fn lemma_name_reference(names: Seq<(Seq<char>, i32)>, name: Seq<char>, start_i: i32)
    requires
        lookup(names, name) is Some,
    ensures
        doug_notation_index(names, seq![ReferenceView::Variable(name)], start_i)
            == Some(Ok::<(int, bool), DougIndexFault>((lookup(names, name)->0 as int, true))),
{
}

} // verus!
