//! Running a program, one statement at a time.
//!
//! What a statement decides stands here; what it needs from outside (evaluating an
//! expression, which computes with doubles and may call foreign code; speaking a text;
//! running a block of statements) is asked for by an action and handed back by an event.
//! A driver starts each statement with [`StepEvent::Start`] and calls [`step`] with each
//! answer until it gets [`StepAction::Finish`].
use vstd::prelude::*;

use crate::interpreter::{
    checked_doug_notation_index, doug_notation_index, lemma_put_entry, lookup, names_distinct, put_entry,
    AdventureNames, DougIndexFault,
};
use crate::parser::ast::{clone_stmts, stmt_view, ExprView, Reference, ReferenceView, Stmt, StmtView};
use crate::runtime::RuntimeError;
use crate::values::tape::{
    cell_value, cloned_cells, lemma_read_after_write, lemma_stored_value, next_object, signed,
    stored_object, with_object, MutatorView, RuntimeTape, RuntimeTapeView, TapeView,
};
use crate::values::value::{truthy, FiveMinuteCodingAdventure, ValueView};
use crate::values::{Operator, Value};

verus! {

/// How running a block of statements ended.
pub enum Flow {
    Continue,
    Return(Value),
    Break,
}

/// The mathematical content of a [`Flow`].
pub enum FlowView {
    Continue,
    Return(ValueView),
    Break,
}

impl View for Flow {
    type V = FlowView;

    open spec fn view(&self) -> FlowView {
        match self {
            Flow::Continue => FlowView::Continue,
            Flow::Return(v) => FlowView::Return(v@),
            Flow::Break => FlowView::Break,
        }
    }
}

/// Which tape the statements work on.
#[derive(Clone, Copy, Debug, PartialEq, Eq, Structural)]
pub enum ActiveTape {
    Main,
    Scoped,
}

/// The block of a statement that a driver is asked to run.
#[derive(Clone, Copy, Debug, PartialEq, Eq, Structural)]
pub enum Body {
    Loop,
    Believers,
    Doubters,
}

/// Where running a statement stops the program, as a failed check of the machine does.
#[derive(Clone, Copy, Debug, PartialEq, Eq, Structural)]
pub enum Fault {
    /// A cell index that has no distance from zero in an `i32`.
    NegateOverflow,
    /// An adventure's cells reach past the last `i32`.
    AddOverflow,
    /// A Doug reference whose index cannot be computed in `i32`s.
    DougIndexOverflow,
    /// A statement without the expression or name it needs.
    MissingValue,
    /// An answer that the statement did not ask for.
    OutOfTurn,
}

/// The mathematical content of a [`RuntimeError`].
pub enum RuntimeErrorView {
    OutOfRange(i32),
    TapeOverFlow,
    NotDefined(Seq<char>),
    NoRExpression(Seq<char>),
    BadExpression(Seq<char>, Seq<char>, Seq<char>),
    AllocError(Seq<char>),
    SyntaxError(Seq<char>),
    SegmentationFault,
    Unexpected(Seq<char>),
    NotAFunction,
}

pub open spec fn error_view(e: RuntimeError) -> RuntimeErrorView {
    match e {
        RuntimeError::OutOfRange(v) => RuntimeErrorView::OutOfRange(v),
        RuntimeError::TapeOverFlow => RuntimeErrorView::TapeOverFlow,
        RuntimeError::NotDefined(s) => RuntimeErrorView::NotDefined(s@),
        RuntimeError::NoRExpression(s) => RuntimeErrorView::NoRExpression(s@),
        RuntimeError::BadExpression(a, b, c) => RuntimeErrorView::BadExpression(a@, b@, c@),
        RuntimeError::AllocError(s) => RuntimeErrorView::AllocError(s@),
        RuntimeError::SyntaxError(s) => RuntimeErrorView::SyntaxError(s@),
        RuntimeError::SegmentationFault => RuntimeErrorView::SegmentationFault,
        RuntimeError::Unexpected(s) => RuntimeErrorView::Unexpected(s@),
        RuntimeError::NotAFunction => RuntimeErrorView::NotAFunction,
    }
}

/// What a driver hands back to a statement.
pub enum StepEvent {
    /// The statement starts.
    Start,
    /// What evaluating the statement's expression gave (after the operator it was asked
    /// to apply, where it was asked to apply one).
    Evaluated(Result<Value, RuntimeError>),
    /// How the block it was asked to run ended.
    Ran(Flow),
}

/// The mathematical content of a [`StepEvent`].
pub enum StepEventView {
    Start,
    Evaluated(Result<ValueView, RuntimeErrorView>),
    Ran(FlowView),
}

impl View for StepEvent {
    type V = StepEventView;

    open spec fn view(&self) -> StepEventView {
        match self {
            StepEvent::Start => StepEventView::Start,
            StepEvent::Evaluated(Ok(v)) => StepEventView::Evaluated(Ok(v@)),
            StepEvent::Evaluated(Err(e)) => StepEventView::Evaluated(Err(error_view(*e))),
            StepEvent::Ran(f) => StepEventView::Ran(f@),
        }
    }
}

/// What a statement asks of its driver.
pub enum StepAction {
    /// Evaluate the statement's expression and hand back what it gives.
    Evaluate,
    /// Evaluate the statement's expression, apply `op` to `left` and it, and hand back
    /// the result.
    Combine { left: Value, op: Operator },
    /// Speak the text of `text`; the statement is then done.
    Speak { text: Value, overlap: bool },
    /// Run a block of the statement and hand back how it ended.
    RunBody(Body),
    /// Run the statements of `adventure`, found at `index` of the main tape, on the
    /// scoped tape, and hand back how they ended.
    RunAdventure { adventure: FiveMinuteCodingAdventure, index: i32 },
    /// Fail: the value called as an adventure is none.
    NotAnAdventure(Value),
    /// The statement is done, and the block goes on as the flow says.
    Finish(Flow),
    /// The program stops.
    Abort(Fault),
}

/// The mathematical content of a [`StepAction`].
pub enum StepActionView {
    Evaluate,
    Combine { left: ValueView, op: Operator },
    Speak { text: ValueView, overlap: bool },
    RunBody(Body),
    RunAdventure { body: Seq<StmtView>, index: i32 },
    NotAnAdventure(ValueView),
    Finish(FlowView),
    Abort(Fault),
}

impl View for StepAction {
    type V = StepActionView;

    open spec fn view(&self) -> StepActionView {
        match self {
            StepAction::Evaluate => StepActionView::Evaluate,
            StepAction::Combine { left, op } => StepActionView::Combine { left: left@, op: *op },
            StepAction::Speak { text, overlap } => StepActionView::Speak { text: text@, overlap: *overlap },
            StepAction::RunBody(b) => StepActionView::RunBody(*b),
            StepAction::RunAdventure { adventure, index } => StepActionView::RunAdventure {
                body: adventure@,
                index: *index,
            },
            StepAction::NotAnAdventure(v) => StepActionView::NotAnAdventure(v@),
            StepAction::Finish(f) => StepActionView::Finish(f@),
            StepAction::Abort(f) => StepActionView::Abort(*f),
        }
    }
}

/// The view of what [`step`] gives.
pub open spec fn action_view(a: Result<StepAction, RuntimeError>) -> Result<StepActionView, RuntimeErrorView> {
    match a {
        Ok(x) => Ok(x@),
        Err(e) => Err(error_view(e)),
    }
}

/// What running a program keeps between statements: the main tape, the tape an
/// adventure call works on, which of them is active, and the adventures' names.
pub struct InterpState {
    pub main: RuntimeTape,
    pub scoped: Option<RuntimeTape>,
    pub active: ActiveTape,
    pub names: AdventureNames,
}

/// The mathematical content of an [`InterpState`].
pub struct InterpStateView {
    pub main: RuntimeTapeView,
    pub scoped: Option<RuntimeTapeView>,
    pub active: ActiveTape,
    pub names: Seq<(Seq<char>, i32)>,
}

impl View for InterpState {
    type V = InterpStateView;

    open spec fn view(&self) -> InterpStateView {
        InterpStateView {
            main: self.main@,
            scoped: match self.scoped {
                Some(t) => Some(t@),
                None => None,
            },
            active: self.active,
            names: self.names.entries(),
        }
    }
}

/// The tape the statements of `s` work on: the scoped tape where it is active and
/// present, else the main tape.
pub open spec fn current(s: InterpStateView) -> RuntimeTapeView {
    match s.scoped {
        Some(t) => if s.active == ActiveTape::Scoped { t } else { s.main },
        None => s.main,
    }
}

/// `s` with its current tape replaced by `t`.
pub open spec fn with_current(s: InterpStateView, t: RuntimeTapeView) -> InterpStateView {
    match s.scoped {
        Some(_) => if s.active == ActiveTape::Scoped {
            InterpStateView { scoped: Some(t), ..s }
        } else {
            InterpStateView { main: t, ..s }
        },
        None => InterpStateView { main: t, ..s },
    }
}

/// What one step gives: the state, the memory, and the action or error.
pub type StepOutcome = (InterpStateView, TapeView, Result<StepActionView, RuntimeErrorView>);

/// Nothing changes and the program stops with `f`.
pub open spec fn aborted(s: InterpStateView, m: TapeView, f: Fault) -> StepOutcome {
    (s, m, Ok(StepActionView::Abort(f)))
}

/// Nothing changes and `a` is asked for.
pub open spec fn asks(s: InterpStateView, m: TapeView, a: StepActionView) -> StepOutcome {
    (s, m, Ok(a))
}

/// The value of the cell under the current cursor, where that cell has an index.
pub open spec fn read_current(s: InterpStateView, m: TapeView) -> Option<ValueView> {
    let t = current(s);
    if t.cursor == i32::MIN {
        None
    } else {
        Some(cell_value(m, t, t.cursor as int))
    }
}

/// `v` stored in the cell under the current cursor, and the statement done.
pub open spec fn write_current(s: InterpStateView, m: TapeView, v: ValueView) -> StepOutcome {
    let t = current(s);
    if t.cursor == i32::MIN {
        aborted(s, m, Fault::NegateOverflow)
    } else {
        (
            with_current(s, t.with_cell(t.cursor as int, next_object(m))),
            with_object(m, stored_object(v)),
            Ok(StepActionView::Finish(FlowView::Continue)),
        )
    }
}

/// The error a Doug reference fault is reported as.
pub open spec fn fault_view(f: DougIndexFault) -> RuntimeErrorView {
    match f {
        DougIndexFault::NotDefined(name) => RuntimeErrorView::NotDefined(name),
        DougIndexFault::VariableName => RuntimeErrorView::Unexpected("variable name"@),
    }
}

/// The cursor a Doug reference counts from: the main tape's where it starts with an
/// adventure's name, else the current tape's.
pub open spec fn reference_start(s: InterpStateView, chains: Seq<ReferenceView>) -> i32 {
    if chains.len() > 0 && chains[0] is Variable { s.main.cursor } else { current(s).cursor }
}

/// Moving a cursor with a Doug reference: the reference counts from the main tape's
/// cursor where it starts with a name, else from the current one, or from zero where it
/// resets; the main tape's cursor moves where it points into the main tape. The memory
/// is left as it is.
pub open spec fn doug_step(s: InterpStateView, chains: Seq<ReferenceView>, reset: bool) -> (InterpStateView, Result<StepActionView, RuntimeErrorView>) {
    let start: i32 = if reset { 0 } else { reference_start(s, chains) };
    match doug_notation_index(s.names, chains, start) {
        None => (s, Ok(StepActionView::Abort(Fault::DougIndexOverflow))),
        Some(Err(f)) => (s, Err(fault_view(f))),
        Some(Ok((idx, to_main))) => {
            let s2 = if to_main {
                InterpStateView { main: RuntimeTapeView { cursor: idx as i32, ..s.main }, ..s }
            } else {
                with_current(s, RuntimeTapeView { cursor: idx as i32, ..current(s) })
            };
            (s2, Ok(StepActionView::Finish(FlowView::Continue)))
        },
    }
}

/// Calling the adventure at `idx` of the main tape: where the cell holds one, the
/// sixteen cells from `idx` on are copied to a fresh scoped tape, which becomes active,
/// and the adventure's statements are to be run.
pub open spec fn begin_call(s: InterpStateView, m: TapeView, idx: i32) -> StepOutcome {
    if idx == i32::MIN {
        aborted(s, m, Fault::NegateOverflow)
    } else {
        match cell_value(m, s.main, idx as int) {
            ValueView::FiveMinuteCodingAdventure(body) => if idx + 15 > i32::MAX {
                aborted(s, m, Fault::AddOverflow)
            } else {
                (
                    InterpStateView {
                        scoped: Some(cloned_cells(s.main, idx, 16)),
                        active: ActiveTape::Scoped,
                        ..s
                    },
                    m,
                    Ok(StepActionView::RunAdventure { body, index: idx }),
                )
            },
            other => asks(s, m, StepActionView::NotAnAdventure(other)),
        }
    }
}

/// After an adventure's statements ran: the scoped tape is dropped and the main one is
/// active again.
pub open spec fn end_call(s: InterpStateView) -> InterpStateView {
    InterpStateView { scoped: None, active: ActiveTape::Main, ..s }
}

/// A statement done, the block going on.
pub open spec fn done(s: InterpStateView, m: TapeView) -> StepOutcome {
    asks(s, m, StepActionView::Finish(FlowView::Continue))
}

/// What the statement `node` does in the state `s` with the memory `m` when `ev` is
/// handed to it.
///
/// - An assignment stores the value of its expression (or of its operator applied to
///   the current cell and the expression) in the current cell.
/// - An expression statement evaluates its expression.
/// - `tts` speaks the current cell, or its message, or nothing.
/// - A Doug reference moves a cursor to the index it names.
/// - `loop` runs its body again and again, until the body ends with a break or a `guoD`.
/// - `guoD` returns the value of its expression, nil where evaluating it fails, or the
///   current cell.
/// - A prediction runs the believers' block exactly when its condition is truthy, else
///   the doubters'; a return or a break from that block ends the prediction with it.
/// - Defining an adventure stores it in the current cell of the current tape, as `set`
///   stores a value, and gives its name that cell's index.
/// - `call` runs the adventure at the main tape's cursor or the one named, on a scoped
///   copy of its sixteen cells.
pub open spec fn exec_step(s: InterpStateView, m: TapeView, node: StmtView, ev: StepEventView) -> StepOutcome {
    match node {
        StmtView::Assign { value, oper } => match ev {
            StepEventView::Start => match oper {
                None => asks(s, m, StepActionView::Evaluate),
                Some(op) => match read_current(s, m) {
                    None => aborted(s, m, Fault::NegateOverflow),
                    Some(l) => asks(s, m, StepActionView::Combine { left: l, op }),
                },
            },
            StepEventView::Evaluated(Ok(v)) => write_current(s, m, v),
            StepEventView::Evaluated(Err(e)) => (s, m, Err(e)),
            StepEventView::Ran(_) => aborted(s, m, Fault::OutOfTurn),
        },
        StmtView::Expr(_) => match ev {
            StepEventView::Start => asks(s, m, StepActionView::Evaluate),
            StepEventView::Evaluated(Ok(_)) => done(s, m),
            StepEventView::Evaluated(Err(e)) => (s, m, Err(e)),
            StepEventView::Ran(_) => aborted(s, m, Fault::OutOfTurn),
        },
        StmtView::Tts { msg, use_index, overlap } => match ev {
            StepEventView::Start => if use_index {
                match read_current(s, m) {
                    None => aborted(s, m, Fault::NegateOverflow),
                    Some(v) => asks(s, m, StepActionView::Speak { text: v, overlap }),
                }
            } else if msg is Some {
                asks(s, m, StepActionView::Evaluate)
            } else {
                asks(s, m, StepActionView::Speak { text: ValueView::String(Seq::empty()), overlap })
            },
            StepEventView::Evaluated(Ok(v)) => asks(s, m, StepActionView::Speak { text: v, overlap }),
            StepEventView::Evaluated(Err(e)) => (s, m, Err(e)),
            StepEventView::Ran(_) => aborted(s, m, Fault::OutOfTurn),
        },
        StmtView::Doug { chains, reset } => match ev {
            StepEventView::Start => {
                let d = doug_step(s, chains, reset);
                (d.0, m, d.1)
            },
            _ => aborted(s, m, Fault::OutOfTurn),
        },
        StmtView::Loop { body } => match ev {
            StepEventView::Start => asks(s, m, StepActionView::RunBody(Body::Loop)),
            StepEventView::Ran(FlowView::Continue) => asks(s, m, StepActionView::RunBody(Body::Loop)),
            StepEventView::Ran(_) => done(s, m),
            StepEventView::Evaluated(_) => aborted(s, m, Fault::OutOfTurn),
        },
        StmtView::Guod { value, use_index } => match ev {
            StepEventView::Start => if use_index {
                match read_current(s, m) {
                    None => aborted(s, m, Fault::NegateOverflow),
                    Some(v) => asks(s, m, StepActionView::Finish(FlowView::Return(v))),
                }
            } else if value is Some {
                asks(s, m, StepActionView::Evaluate)
            } else {
                aborted(s, m, Fault::MissingValue)
            },
            StepEventView::Evaluated(Ok(v)) => asks(s, m, StepActionView::Finish(FlowView::Return(v))),
            StepEventView::Evaluated(Err(_)) => asks(s, m, StepActionView::Finish(FlowView::Return(ValueView::Nil))),
            StepEventView::Ran(_) => aborted(s, m, Fault::OutOfTurn),
        },
        StmtView::Prediction { believe_body, doubt_body, condition } => match ev {
            StepEventView::Start => asks(s, m, StepActionView::Evaluate),
            StepEventView::Evaluated(Ok(v)) => asks(
                s,
                m,
                StepActionView::RunBody(if truthy(v) { Body::Believers } else { Body::Doubters }),
            ),
            StepEventView::Evaluated(Err(e)) => (s, m, Err(e)),
            StepEventView::Ran(FlowView::Continue) => done(s, m),
            StepEventView::Ran(f) => asks(s, m, StepActionView::Finish(f)),
        },
        StmtView::FiveMinuteCodingAdventure { name, body } => match ev {
            StepEventView::Start => {
                let w = write_current(s, m, ValueView::FiveMinuteCodingAdventure(body));
                if current(s).cursor == i32::MIN {
                    w
                } else {
                    (InterpStateView { names: put_entry(s.names, name, current(s).cursor), ..w.0 }, w.1, w.2)
                }
            },
            _ => aborted(s, m, Fault::OutOfTurn),
        },
        StmtView::Call { name, use_index } => match ev {
            StepEventView::Start => if use_index {
                begin_call(s, m, s.main.cursor)
            } else {
                match name {
                    None => aborted(s, m, Fault::MissingValue),
                    Some(n) => match lookup(s.names, n) {
                        None => (s, m, Err(RuntimeErrorView::NotDefined(n))),
                        Some(idx) => begin_call(s, m, idx),
                    },
                }
            },
            StepEventView::Ran(_) => done(end_call(s), m),
            StepEventView::Evaluated(_) => aborted(s, m, Fault::OutOfTurn),
        },
    }
}

/// `guoD` in a loop's body ends the loop, and so does a break; a body that runs to its
/// end runs again.
pub proof fn lemma_loop_ends_on_return(s: InterpStateView, m: TapeView, body: Seq<StmtView>, f: FlowView)
    ensures
        exec_step(s, m, StmtView::Loop { body }, StepEventView::Ran(f)) == match f {
            FlowView::Continue => asks(s, m, StepActionView::RunBody(Body::Loop)),
            _ => done(s, m),
        },
{
}

/// A prediction runs the believers' block exactly when its condition is truthy, and
/// the doubters' block otherwise.
pub proof fn lemma_prediction_picks_by_truth(
    s: InterpStateView,
    m: TapeView,
    believe_body: Seq<StmtView>,
    doubt_body: Seq<StmtView>,
    condition: ExprView,
    v: ValueView,
)
    ensures
        ({
            let r = exec_step(
                s,
                m,
                StmtView::Prediction { believe_body, doubt_body, condition },
                StepEventView::Evaluated(Ok(v)),
            );
            &&& r.0 == s
            &&& r.1 == m
            &&& (r.2 == Ok::<StepActionView, RuntimeErrorView>(StepActionView::RunBody(Body::Believers))) == truthy(v)
            &&& (r.2 == Ok::<StepActionView, RuntimeErrorView>(StepActionView::RunBody(Body::Doubters))) == !truthy(v)
        }),
{
}

/// A prediction on a number runs the believers' block exactly when the number, read as a
/// double, is not zero: negative numbers and NaNs pick the believers, `0.0` and `-0.0` the
/// doubters.
pub proof fn lemma_prediction_on_a_number(
    s: InterpStateView,
    m: TapeView,
    believe_body: Seq<StmtView>,
    doubt_body: Seq<StmtView>,
    condition: ExprView,
    bits: u64,
)
    ensures
        exec_step(
            s,
            m,
            StmtView::Prediction { believe_body, doubt_body, condition },
            StepEventView::Evaluated(Ok(ValueView::Number(bits))),
        ).2 == Ok::<StepActionView, RuntimeErrorView>(StepActionView::RunBody(
            if bits == 0u64 || bits == 0x8000_0000_0000_0000u64 { Body::Doubters } else { Body::Believers },
        )),
{
    crate::values::value::lemma_number_truth(bits);
}

/// An adventure defined while the main tape is current is found under its name: calling
/// it by name next runs its statements, from the cell it was stored in.
pub proof fn lemma_defined_adventure_is_called(s: InterpStateView, m: TapeView, name: Seq<char>, body: Seq<StmtView>)
    requires
        names_distinct(s.names),
        s.active == ActiveTape::Main || s.scoped is None,
        s.main.cursor != i32::MIN,
        s.main.cursor + 15 <= i32::MAX,
        m.objects.len() <= usize::MAX,
    ensures
        ({
            let d = exec_step(s, m, StmtView::FiveMinuteCodingAdventure { name, body }, StepEventView::Start);
            let c = exec_step(d.0, d.1, StmtView::Call { name: Some(name), use_index: false }, StepEventView::Start);
            &&& d.2 == Ok::<StepActionView, RuntimeErrorView>(StepActionView::Finish(FlowView::Continue))
            &&& c.2 == Ok::<StepActionView, RuntimeErrorView>(StepActionView::RunAdventure { body, index: s.main.cursor })
            &&& c.0.active == ActiveTape::Scoped
        }),
{
    let v = ValueView::FiveMinuteCodingAdventure(body);
    lemma_put_entry(s.names, name, s.main.cursor);
    lemma_read_after_write(m, s.main, v);
    lemma_stored_value(v);
}

impl InterpState {
    /// The adventures' names are held once each.
    pub open spec fn wf(&self) -> bool {
        self.names.wf()
    }

    /// A fresh run: an empty main tape, active, no scoped tape and no adventures.
    pub fn new() -> (s: Self)
        ensures
            s.wf(),
            s@.main == (RuntimeTapeView { left: Map::empty(), right: Map::empty(), cursor: 0 }),
            s@.scoped is None,
            s@.active == ActiveTape::Main,
            s@.names == Seq::<(Seq<char>, i32)>::empty(),
    {
        InterpState {
            main: RuntimeTape::new(),
            scoped: None,
            active: ActiveTape::Main,
            names: AdventureNames::new(),
        }
    }

    /// The tape the statements work on.
    pub fn current(&self) -> (t: &RuntimeTape)
        ensures
            t@ == current(self@),
    {
        match &self.scoped {
            Some(t) => if self.active == ActiveTape::Scoped {
                t
            } else {
                &self.main
            },
            None => &self.main,
        }
    }

    /// Moves the cursor of the current tape to `idx`.
    fn set_current_cursor(&mut self, idx: i32)
        ensures
            final(self).names == old(self).names,
            final(self)@ == with_current(old(self)@, RuntimeTapeView { cursor: idx, ..current(old(self)@) }),
    {
        if self.active == ActiveTape::Scoped && self.scoped.is_some() {
            let mut t = self.scoped.take().unwrap();
            t.set_cursor(idx);
            self.scoped = Some(t);
        } else {
            self.main.set_cursor(idx);
        }
    }

    /// The value of the cell under the current cursor, where that cell has an index.
    fn read_current(&self, mem: &MutatorView) -> (r: Option<Value>)
        ensures
            match read_current(self@, mem.memory()) {
                None => r is None,
                Some(v) => r matches Some(x) && x@ == v,
            },
    {
        let t = self.current();
        if t.cursor_index() == i32::MIN {
            None
        } else {
            match t.get(t.cursor_index(), mem) {
                Ok(v) => Some(v),
                Err(_) => None,
            }
        }
    }

    /// Stores `v` in the cell under the current cursor.
    fn write_current(&mut self, mem: &mut MutatorView, v: Value) -> (a: Result<StepAction, RuntimeError>)
        ensures
            final(self).names == old(self).names,
            (final(self)@, final(mem).memory(), action_view(a)) == write_current(old(self)@, old(mem).memory(), v@),
    {
        if self.current().cursor_index() == i32::MIN {
            return Ok(StepAction::Abort(Fault::NegateOverflow));
        }
        if self.active == ActiveTape::Scoped && self.scoped.is_some() {
            let mut t = self.scoped.take().unwrap();
            let _ = t.set_value(mem, v);
            self.scoped = Some(t);
        } else {
            let _ = self.main.set_value(mem, v);
        }
        Ok(StepAction::Finish(Flow::Continue))
    }

    /// Starts a call of the adventure at `idx` of the main tape.
    fn begin_call(&mut self, mem: &MutatorView, idx: i32) -> (a: Result<StepAction, RuntimeError>)
        ensures
            final(self).names == old(self).names,
            (final(self)@, mem.memory(), action_view(a)) == begin_call(old(self)@, mem.memory(), idx),
    {
        if idx == i32::MIN {
            return Ok(StepAction::Abort(Fault::NegateOverflow));
        }
        let v = match self.main.get(idx, mem) {
            Ok(v) => v,
            Err(e) => {
                return Err(e);
            },
        };
        match v {
            Value::FiveMinuteCodingAdventure(adventure) => {
                if idx > i32::MAX - 15 {
                    return Ok(StepAction::Abort(Fault::AddOverflow));
                }
                proof {
                    assert forall|i: u32| i < 16 implies i32::MIN < #[trigger] (idx + signed(i)) <= i32::MAX by {
                        assert(signed(i) == i);
                    }
                }
                let t = self.main.clone_into(idx, 16);
                self.scoped = Some(t);
                self.active = ActiveTape::Scoped;
                Ok(StepAction::RunAdventure { adventure, index: idx })
            },
            other => Ok(StepAction::NotAnAdventure(other)),
        }
    }
}

/// Runs the statement `node` on receiving `event`: changes the state and the memory as
/// the statement does, and says what it asks of the driver next.
pub fn step(state: &mut InterpState, mem: &mut MutatorView, node: &Stmt, event: StepEvent) -> (a: Result<StepAction, RuntimeError>)
    requires
        old(state).wf(),
    ensures
        final(state).wf(),
        (final(state)@, final(mem).memory(), action_view(a)) == exec_step(old(state)@, old(mem).memory(), stmt_view(*node), event@),
{
    match node {
        Stmt::Assign { value, oper } => match event {
            StepEvent::Start => match oper {
                None => Ok(StepAction::Evaluate),
                Some(op) => match state.read_current(mem) {
                    None => Ok(StepAction::Abort(Fault::NegateOverflow)),
                    Some(l) => Ok(StepAction::Combine { left: l, op: *op }),
                },
            },
            StepEvent::Evaluated(Ok(v)) => state.write_current(mem, v),
            StepEvent::Evaluated(Err(e)) => Err(e),
            StepEvent::Ran(_) => Ok(StepAction::Abort(Fault::OutOfTurn)),
        },
        Stmt::Expr(_) => match event {
            StepEvent::Start => Ok(StepAction::Evaluate),
            StepEvent::Evaluated(Ok(_)) => Ok(StepAction::Finish(Flow::Continue)),
            StepEvent::Evaluated(Err(e)) => Err(e),
            StepEvent::Ran(_) => Ok(StepAction::Abort(Fault::OutOfTurn)),
        },
        Stmt::Tts { msg, use_index, overlap } => match event {
            StepEvent::Start => if *use_index {
                match state.read_current(mem) {
                    None => Ok(StepAction::Abort(Fault::NegateOverflow)),
                    Some(v) => Ok(StepAction::Speak { text: v, overlap: *overlap }),
                }
            } else if msg.is_some() {
                Ok(StepAction::Evaluate)
            } else {
                Ok(StepAction::Speak { text: Value::String(String::new()), overlap: *overlap })
            },
            StepEvent::Evaluated(Ok(v)) => Ok(StepAction::Speak { text: v, overlap: *overlap }),
            StepEvent::Evaluated(Err(e)) => Err(e),
            StepEvent::Ran(_) => Ok(StepAction::Abort(Fault::OutOfTurn)),
        },
        Stmt::Doug { chains, reset } => match event {
            StepEvent::Start => doug(state, chains.as_slice(), *reset),
            _ => Ok(StepAction::Abort(Fault::OutOfTurn)),
        },
        Stmt::Loop { body: _ } => match event {
            StepEvent::Start => Ok(StepAction::RunBody(Body::Loop)),
            StepEvent::Ran(Flow::Continue) => Ok(StepAction::RunBody(Body::Loop)),
            StepEvent::Ran(_) => Ok(StepAction::Finish(Flow::Continue)),
            StepEvent::Evaluated(_) => Ok(StepAction::Abort(Fault::OutOfTurn)),
        },
        Stmt::Guod { value, use_index } => match event {
            StepEvent::Start => if *use_index {
                match state.read_current(mem) {
                    None => Ok(StepAction::Abort(Fault::NegateOverflow)),
                    Some(v) => Ok(StepAction::Finish(Flow::Return(v))),
                }
            } else if value.is_some() {
                Ok(StepAction::Evaluate)
            } else {
                Ok(StepAction::Abort(Fault::MissingValue))
            },
            StepEvent::Evaluated(Ok(v)) => Ok(StepAction::Finish(Flow::Return(v))),
            StepEvent::Evaluated(Err(_)) => Ok(StepAction::Finish(Flow::Return(Value::Nil))),
            StepEvent::Ran(_) => Ok(StepAction::Abort(Fault::OutOfTurn)),
        },
        Stmt::Prediction { believe_body: _, doubt_body: _, condition: _ } => match event {
            StepEvent::Start => Ok(StepAction::Evaluate),
            StepEvent::Evaluated(Ok(v)) => Ok(StepAction::RunBody(
                if v.into_bool() {
                    Body::Believers
                } else {
                    Body::Doubters
                },
            )),
            StepEvent::Evaluated(Err(e)) => Err(e),
            StepEvent::Ran(Flow::Continue) => Ok(StepAction::Finish(Flow::Continue)),
            StepEvent::Ran(f) => Ok(StepAction::Finish(f)),
        },
        Stmt::FiveMinuteCodingAdventure { name, body } => match event {
            StepEvent::Start => {
                let c = state.current().cursor_index();
                if c == i32::MIN {
                    return Ok(StepAction::Abort(Fault::NegateOverflow));
                }
                let adventure = FiveMinuteCodingAdventure::new(clone_stmts(body));
                let r = state.write_current(mem, Value::FiveMinuteCodingAdventure(adventure));
                state.names.insert(copy_string(name), c);
                r
            },
            _ => Ok(StepAction::Abort(Fault::OutOfTurn)),
        },
        Stmt::Call { name, use_index } => match event {
            StepEvent::Start => if *use_index {
                let idx = state.main.cursor_index();
                state.begin_call(mem, idx)
            } else {
                match name {
                    None => Ok(StepAction::Abort(Fault::MissingValue)),
                    Some(n) => match state.names.get(n.as_str()) {
                        None => Err(RuntimeError::NotDefined(copy_string(n))),
                        Some(idx) => state.begin_call(mem, idx),
                    },
                }
            },
            StepEvent::Ran(_) => {
                state.scoped = None;
                state.active = ActiveTape::Main;
                Ok(StepAction::Finish(Flow::Continue))
            },
            StepEvent::Evaluated(_) => Ok(StepAction::Abort(Fault::OutOfTurn)),
        },
    }
}

/// A copy of `s`.
fn copy_string(s: &String) -> (r: String)
    ensures
        r@ == s@,
{
    let c = crate::text::str_chars(s.as_str());
    crate::text::string_from_chars(c.as_slice())
}

/// Moves a cursor as the Doug reference `chains` says.
fn doug(state: &mut InterpState, chains: &[Reference], reset: bool) -> (a: Result<StepAction, RuntimeError>)
    requires
        old(state).wf(),
    ensures
        final(state).wf(),
        (final(state)@, action_view(a)) == doug_step(old(state)@, crate::parser::ast::references_view(chains@), reset),
{
    let from = if chains.len() > 0 && is_variable(&chains[0]) {
        state.main.cursor_index()
    } else {
        state.current().cursor_index()
    };
    let start: i32 = if reset {
        0
    } else {
        from
    };
    match checked_doug_notation_index(&state.names, chains, start) {
        None => Ok(StepAction::Abort(Fault::DougIndexOverflow)),
        Some(Err(e)) => Err(e),
        Some(Ok((idx, to_main))) => {
            if to_main {
                state.main.set_cursor(idx);
            } else {
                state.set_current_cursor(idx);
            }
            Ok(StepAction::Finish(Flow::Continue))
        },
    }
}

/// The cell a Doug reference reads: its index, counted from [`reference_start`], and
/// whether it lies on the main tape (else on the current one); `None` where the index
/// cannot be computed in `i32`s.
pub fn read_target(state: &InterpState, chains: &[Reference]) -> (r: Option<Result<(i32, bool), RuntimeError>>)
    requires
        state.wf(),
    ensures
        match doug_notation_index(
            state@.names,
            crate::parser::ast::references_view(chains@),
            reference_start(state@, crate::parser::ast::references_view(chains@)),
        ) {
            None => r is None,
            Some(Ok((idx, main))) => r matches Some(Ok((i, m))) && i == idx && m == main,
            Some(Err(f)) => r matches Some(Err(e)) && error_view(e) == fault_view(f),
        },
{
    let start = if chains.len() > 0 && is_variable(&chains[0]) {
        state.main.cursor_index()
    } else {
        state.current().cursor_index()
    };
    checked_doug_notation_index(&state.names, chains, start)
}

/// What a block does after one of its statements ended with `flow`: it goes on
/// (`None`) where the statement continued, and otherwise ends with that flow.
pub fn block_step(flow: Flow) -> (r: Option<Flow>)
    ensures
        match flow@ {
            FlowView::Continue => r is None,
            f => r matches Some(x) && x@ == f,
        },
{
    match flow {
        Flow::Continue => None,
        other => Some(other),
    }
}

/// Whether `r` is an adventure's name.
fn is_variable(r: &Reference) -> (b: bool)
    ensures
        b == (crate::parser::ast::reference_view(*r) is Variable),
{
    match r {
        Reference::Variable(_) => true,
        Reference::Doug(_) => false,
    }
}

} // verus!
