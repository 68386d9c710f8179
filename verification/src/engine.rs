//! The rules of stepping. The engine does not run the solver or the bytecode
//! machine itself: it says what to ask of them next, is told what came of it,
//! and decides whether the command in hand is done and with what result.

use crate::location::{DebugLocation, OpcodeLocation};
use crate::program::{DebugArtifact, DebugInfo, Location, OpcodeKind, ProgramShape, ShapeView};
use vstd::prelude::*;
use vstd::slice::slice_to_vec;

verus! {

/// Why execution failed.
#[derive(Debug, PartialEq, Eq)]
pub enum ExecutionError {
    /// A constraint with a message of the user's was not met; with the call stack.
    AssertionFailed(String, Vec<DebugLocation>),
    /// The solver failed otherwise, or a foreign call did.
    SolvingError(String),
    /// A bytecode function failed; with the call stack.
    BrilligFailed(String, Vec<DebugLocation>),
}

/// The model of an [`ExecutionError`].
pub enum ErrorView {
    AssertionFailed(Seq<char>, Seq<DebugLocation>),
    SolvingError(Seq<char>),
    BrilligFailed(Seq<char>, Seq<DebugLocation>),
}

impl View for ExecutionError {
    type V = ErrorView;

    open spec fn view(&self) -> ErrorView {
        match self {
            ExecutionError::AssertionFailed(m, s) => ErrorView::AssertionFailed(m@, s@),
            ExecutionError::SolvingError(m) => ErrorView::SolvingError(m@),
            ExecutionError::BrilligFailed(m, s) => ErrorView::BrilligFailed(m@, s@),
        }
    }
}

/// How a stepping command ended.
#[derive(Debug, PartialEq, Eq)]
pub enum DebugCommandResult {
    /// Execution is over.
    Done,
    /// The command ran; execution can go on.
    Okay,
    /// Execution stopped at a breakpoint.
    BreakpointReached(DebugLocation),
    /// Execution failed.
    Error(ExecutionError),
}

/// The model of a [`DebugCommandResult`].
pub enum ResultView {
    Done,
    Okay,
    BreakpointReached(DebugLocation),
    Error(ErrorView),
}

impl View for DebugCommandResult {
    type V = ResultView;

    open spec fn view(&self) -> ResultView {
        match self {
            DebugCommandResult::Done => ResultView::Done,
            DebugCommandResult::Okay => ResultView::Okay,
            DebugCommandResult::BreakpointReached(l) => ResultView::BreakpointReached(*l),
            DebugCommandResult::Error(e) => ResultView::Error(e@),
        }
    }
}

impl ResultView {
    /// Whether no further step can follow: execution is over or has failed.
    pub open spec fn is_terminal(self) -> bool {
        self is Done || self is Error
    }
}

/// The stepping commands.
#[derive(Clone, Copy, Debug, PartialEq, Eq, Structural)]
pub enum StepCommand {
    StepAcirOpcode,
    StepIntoOpcode,
    NextInto,
    NextOver,
    NextOut,
    Cont,
}

/// What the engine asks of the solver and the bytecode machine.
#[derive(Clone, Copy, Debug, PartialEq, Eq, Structural)]
pub enum SolverAction {
    /// Solve the circuit opcode at the instruction pointer.
    SolveOpcode,
    /// Open the bytecode call at the instruction pointer without running it.
    StepIntoBrillig,
    /// Run one bytecode opcode.
    StepBrillig,
    /// Hand the finished bytecode call back to the circuit solver.
    FinishBrillig,
    /// Run the pending foreign call and feed its result back.
    ResolveForeignCall,
    /// Start solving the called circuit.
    EnterCircuit { id: u32 },
    /// Hand the solved circuit's result back to the calling circuit.
    ReturnToCaller,
}

/// Why the solver failed.
#[derive(Debug, PartialEq, Eq)]
pub enum SolverFailure {
    /// A constraint was not met.
    UnsatisfiedConstraint(String),
    /// A bytecode function failed.
    BrilligFunctionFailed(String),
    /// Anything else.
    Other(String),
}

/// What came of an action.
#[derive(Debug, PartialEq, Eq)]
pub enum SolverReport {
    /// The current circuit is solved.
    Solved,
    /// An opcode was solved and more are left.
    InProgress,
    /// The solver failed.
    Failure(SolverFailure),
    /// The solver waits for a foreign call.
    RequiresForeignCall,
    /// The solver waits for the circuit `id` to be solved.
    RequiresAcirCall { id: u32 },
    /// A bytecode call was opened and stands at its first opcode.
    EnteredBrillig,
    /// A bytecode opcode ran and more are left.
    BrilligInProgress,
    /// The bytecode call has run to its end.
    BrilligFinished,
    /// The bytecode machine waits for a foreign call.
    BrilligForeignCallWait,
    /// The bytecode machine failed.
    BrilligFailure(String),
    /// The foreign call was run and its result fed back.
    ForeignCallResolved,
    /// The foreign call failed.
    ForeignCallFailed(String),
    /// The called circuit stands at its first opcode.
    EnteredCircuit,
}

/// The model of a [`SolverReport`].
pub enum ReportView {
    Solved,
    InProgress,
    UnsatisfiedConstraint(Seq<char>),
    BrilligFunctionFailed(Seq<char>),
    OtherFailure(Seq<char>),
    RequiresForeignCall,
    RequiresAcirCall { id: u32 },
    EnteredBrillig,
    BrilligInProgress,
    BrilligFinished,
    BrilligForeignCallWait,
    BrilligFailure(Seq<char>),
    ForeignCallResolved,
    ForeignCallFailed(Seq<char>),
    EnteredCircuit,
}

impl View for SolverReport {
    type V = ReportView;

    open spec fn view(&self) -> ReportView {
        match self {
            SolverReport::Solved => ReportView::Solved,
            SolverReport::InProgress => ReportView::InProgress,
            SolverReport::Failure(SolverFailure::UnsatisfiedConstraint(m)) => {
                ReportView::UnsatisfiedConstraint(m@)
            },
            SolverReport::Failure(SolverFailure::BrilligFunctionFailed(m)) => {
                ReportView::BrilligFunctionFailed(m@)
            },
            SolverReport::Failure(SolverFailure::Other(m)) => ReportView::OtherFailure(m@),
            SolverReport::RequiresForeignCall => ReportView::RequiresForeignCall,
            SolverReport::RequiresAcirCall { id } => ReportView::RequiresAcirCall { id: *id },
            SolverReport::EnteredBrillig => ReportView::EnteredBrillig,
            SolverReport::BrilligInProgress => ReportView::BrilligInProgress,
            SolverReport::BrilligFinished => ReportView::BrilligFinished,
            SolverReport::BrilligForeignCallWait => ReportView::BrilligForeignCallWait,
            SolverReport::BrilligFailure(m) => ReportView::BrilligFailure(m@),
            SolverReport::ForeignCallResolved => ReportView::ForeignCallResolved,
            SolverReport::ForeignCallFailed(m) => ReportView::ForeignCallFailed(m@),
            SolverReport::EnteredCircuit => ReportView::EnteredCircuit,
        }
    }
}

/// Where the bytecode machine stands.
#[derive(Debug, PartialEq, Eq)]
pub struct BrilligPosition {
    /// The function that is running.
    pub function_id: u32,
    /// The index of the next opcode.
    pub program_counter: usize,
    /// The opcode index of every active call, the current one last.
    pub call_stack: Vec<usize>,
}

/// Where the solver stands after an action.
#[derive(Debug, PartialEq, Eq)]
pub struct SolverSnapshot {
    /// The index of the next opcode of the current circuit.
    pub acir_index: usize,
    /// The state of the bytecode machine, where a bytecode call is open.
    pub brillig: Option<BrilligPosition>,
}

/// The model of a [`BrilligPosition`].
pub struct BrilligView {
    pub function_id: u32,
    pub program_counter: usize,
    pub call_stack: Seq<usize>,
}

/// The model of a [`SolverSnapshot`].
pub struct SnapshotView {
    pub acir_index: usize,
    pub brillig: Option<BrilligView>,
}

impl View for SolverSnapshot {
    type V = SnapshotView;

    open spec fn view(&self) -> SnapshotView {
        SnapshotView {
            acir_index: self.acir_index,
            brillig: match self.brillig {
                Some(b) => Some(
                    BrilligView {
                        function_id: b.function_id,
                        program_counter: b.program_counter,
                        call_stack: b.call_stack@,
                    },
                ),
                None => None,
            },
        }
    }
}

/// What the engine decides: the next action, or the end of the command.
#[derive(Debug, PartialEq, Eq)]
pub enum Decision {
    /// Perform the action and report what came of it.
    Advance(SolverAction),
    /// The command has ended with this result.
    Finish(DebugCommandResult),
}

/// The model of a [`Decision`].
pub enum DecisionView {
    Advance(SolverAction),
    Finish(ResultView),
}

impl View for Decision {
    type V = DecisionView;

    open spec fn view(&self) -> DecisionView {
        match self {
            Decision::Advance(a) => DecisionView::Advance(*a),
            Decision::Finish(r) => DecisionView::Finish(r@),
        }
    }
}

/// The command in hand, with what the engine noted when it began.
pub struct RunningView {
    pub command: StepCommand,
    /// The depth of the call stack.
    pub entry_depth: nat,
    /// The source places of the opcode.
    pub entry_source: Option<Seq<Location>>,
    /// The index of the circuit opcode.
    pub entry_acir_index: usize,
    /// Whether a bytecode call was open.
    pub entry_in_brillig: bool,
}

/// The model of the engine's state.
pub struct ContextView {
    /// The breakpoints, in the order in which they were set.
    pub breakpoints: Seq<DebugLocation>,
    /// The circuit that is being solved.
    pub current_circuit_id: u32,
    /// Where the solver stands.
    pub position: SnapshotView,
    /// The calling circuits, outermost first: circuit and index of the call.
    pub frames: Seq<(u32, usize)>,
    /// The command in hand, if any.
    pub running: Option<RunningView>,
    /// Whether execution is over or has failed.
    pub halted: bool,
    /// Whether the outermost circuit is solved.
    pub solved: bool,
}

/// The state at the start of execution, with the given breakpoints.
pub open spec fn initial_state(breakpoints: Seq<DebugLocation>) -> ContextView {
    ContextView {
        breakpoints,
        current_circuit_id: 0,
        position: SnapshotView { acir_index: 0, brillig: None },
        frames: Seq::empty(),
        running: None,
        halted: false,
        solved: false,
    }
}

/// The location at which execution stands, or `None` where the current
/// circuit has no opcode left.
pub open spec fn current_location(shape: ShapeView, m: ContextView) -> Option<DebugLocation> {
    if m.current_circuit_id < shape.circuits.len() && m.position.acir_index
        < shape.circuits[m.current_circuit_id as int].len() {
        Some(
            match m.position.brillig {
                Some(b) => DebugLocation {
                    circuit_id: m.current_circuit_id,
                    opcode_location: OpcodeLocation::Brillig {
                        acir_index: m.position.acir_index,
                        brillig_index: b.program_counter,
                    },
                    brillig_function_id: Some(b.function_id),
                },
                None => DebugLocation {
                    circuit_id: m.current_circuit_id,
                    opcode_location: OpcodeLocation::Acir(m.position.acir_index),
                    brillig_function_id: None,
                },
            },
        )
    } else {
        None
    }
}

/// The call stack, outermost first: the calling circuits at their calls, then
/// the calls of the open bytecode call, or the current circuit opcode.
pub open spec fn call_stack(shape: ShapeView, m: ContextView) -> Seq<DebugLocation> {
    let callers = Seq::new(
        m.frames.len(),
        |i: int|
            DebugLocation {
                circuit_id: m.frames[i].0,
                opcode_location: OpcodeLocation::Acir(m.frames[i].1),
                brillig_function_id: None,
            },
    );
    match current_location(shape, m) {
        None => callers,
        Some(here) => match m.position.brillig {
            Some(b) => callers + Seq::new(
                b.call_stack.len(),
                |i: int|
                    DebugLocation {
                        circuit_id: m.current_circuit_id,
                        opcode_location: OpcodeLocation::Brillig {
                            acir_index: m.position.acir_index,
                            brillig_index: b.call_stack[i],
                        },
                        brillig_function_id: Some(b.function_id),
                    },
            ),
            None => callers.push(here),
        },
    }
}

/// The breakpoint that execution at `here` hits, if any: `here` itself, or
/// for the first opcode of a bytecode call the circuit opcode that calls it.
pub open spec fn hit_breakpoint(breakpoints: Seq<DebugLocation>, here: DebugLocation) -> Option<
    DebugLocation,
> {
    if breakpoints.contains(here) {
        Some(here)
    } else {
        match here.opcode_location {
            OpcodeLocation::Brillig { acir_index, brillig_index } => {
                let call = DebugLocation {
                    circuit_id: here.circuit_id,
                    opcode_location: OpcodeLocation::Acir(acir_index),
                    brillig_function_id: None,
                };
                if brillig_index == 0 && breakpoints.contains(call) {
                    Some(call)
                } else {
                    None
                }
            },
            _ => None,
        }
    }
}

/// The result of a step that ran through: a breakpoint where one is hit.
pub open spec fn settle(shape: ShapeView, m: ContextView) -> ResultView {
    match current_location(shape, m) {
        None => ResultView::Okay,
        Some(here) => match hit_breakpoint(m.breakpoints, here) {
            Some(b) => ResultView::BreakpointReached(b),
            None => ResultView::Okay,
        },
    }
}

/// The action that runs the next opcode: a bytecode opcode where a bytecode
/// call is open; else, unless the command steps by circuit opcodes, the
/// opening of the bytecode call at the instruction pointer; else the solving
/// of the circuit opcode.
pub open spec fn step_action(shape: ShapeView, m: ContextView) -> SolverAction {
    if m.position.brillig is Some {
        SolverAction::StepBrillig
    } else if m.running matches Some(run) && run.command != StepCommand::StepAcirOpcode
        && current_location(shape, m) is Some
        && shape.circuits[m.current_circuit_id as int][m.position.acir_index as int] is BrilligCall {
        SolverAction::StepIntoBrillig
    } else {
        SolverAction::SolveOpcode
    }
}

/// The source places of the opcode at which execution stands.
pub open spec fn current_source(shape: ShapeView, artifact: &DebugArtifact, m: ContextView) -> Option<
    Seq<Location>,
> {
    match current_location(shape, m) {
        Some(here) => artifact.spec_source_locations(here),
        None => None,
    }
}

/// Whether execution stands at source places, and not those of the command's start.
pub open spec fn source_changed(
    shape: ShapeView,
    artifact: &DebugArtifact,
    m: ContextView,
    run: RunningView,
) -> bool {
    current_source(shape, artifact, m) is Some && current_source(shape, artifact, m)
        != run.entry_source
}

/// Whether the command in hand goes on after a step that ended well.
pub open spec fn goes_on(
    shape: ShapeView,
    artifact: &DebugArtifact,
    m: ContextView,
    run: RunningView,
) -> bool {
    current_location(shape, m) is Some && match run.command {
        StepCommand::StepIntoOpcode => false,
        StepCommand::StepAcirOpcode => run.entry_in_brillig && m.position.acir_index
            == run.entry_acir_index,
        StepCommand::NextInto => !source_changed(shape, artifact, m, run),
        StepCommand::NextOver => !(source_changed(shape, artifact, m, run) && call_stack(
            shape,
            m,
        ).len() == run.entry_depth),
        StepCommand::NextOut => !(source_changed(shape, artifact, m, run) && call_stack(
            shape,
            m,
        ).len() < run.entry_depth),
        StepCommand::Cont => true,
    }
}

/// The end of the command in hand with result `r`.
pub open spec fn finish(m: ContextView, r: ResultView) -> (ContextView, DecisionView) {
    (
        ContextView { running: None, halted: m.halted || r.is_terminal(), ..m },
        DecisionView::Finish(r),
    )
}

/// What follows a step that ran through with result `r`.
pub open spec fn step_done(
    shape: ShapeView,
    artifact: &DebugArtifact,
    m: ContextView,
    r: ResultView,
) -> (ContextView, DecisionView) {
    match m.running {
        Some(run) => if r is Okay && goes_on(shape, artifact, m, run) {
            (m, DecisionView::Advance(step_action(shape, m)))
        } else {
            finish(m, r)
        },
        None => finish(m, r),
    }
}

/// The message of the user's for a constraint at `here`, if there is one.
pub open spec fn assertion_message(
    messages: Seq<(DebugLocation, Seq<char>)>,
    here: DebugLocation,
) -> Option<Seq<char>>
    decreases messages.len(),
{
    if messages.len() == 0 {
        None
    } else if messages[0].0 == here {
        Some(messages[0].1)
    } else {
        assertion_message(messages.drop_first(), here)
    }
}

/// The error for a constraint that was not met: the user's message for the
/// last location of the call stack where there is one, else the solver's.
pub open spec fn constraint_error(
    messages: Seq<(DebugLocation, Seq<char>)>,
    stack: Seq<DebugLocation>,
    solver_message: Seq<char>,
) -> ErrorView {
    if stack.len() > 0 && assertion_message(messages, stack.last()) is Some {
        ErrorView::AssertionFailed(assertion_message(messages, stack.last()).unwrap(), stack)
    } else {
        ErrorView::SolvingError(solver_message)
    }
}

/// The engine's step: the state with the solver's new position, and what the
/// report leads to.
pub open spec fn spec_on_report(
    shape: ShapeView,
    artifact: &DebugArtifact,
    messages: Seq<(DebugLocation, Seq<char>)>,
    before: ContextView,
    report: ReportView,
    snapshot: SnapshotView,
) -> (ContextView, DecisionView) {
    let m = ContextView { position: snapshot, ..before };
    match report {
        ReportView::Solved => if m.frames.len() == 0 {
            finish(ContextView { solved: true, ..m }, ResultView::Done)
        } else {
            (
                ContextView {
                    frames: m.frames.drop_last(),
                    current_circuit_id: m.frames.last().0,
                    ..m
                },
                DecisionView::Advance(SolverAction::ReturnToCaller),
            )
        },
        ReportView::InProgress
        | ReportView::EnteredBrillig
        | ReportView::BrilligInProgress
        | ReportView::EnteredCircuit => step_done(shape, artifact, m, settle(shape, m)),
        ReportView::UnsatisfiedConstraint(text) => finish(
            m,
            ResultView::Error(constraint_error(messages, call_stack(shape, m), text)),
        ),
        ReportView::BrilligFunctionFailed(text) | ReportView::BrilligFailure(text) => finish(
            m,
            ResultView::Error(ErrorView::BrilligFailed(text, call_stack(shape, m))),
        ),
        ReportView::OtherFailure(text) | ReportView::ForeignCallFailed(text) => finish(
            m,
            ResultView::Error(ErrorView::SolvingError(text)),
        ),
        ReportView::RequiresForeignCall | ReportView::BrilligForeignCallWait => (
            m,
            DecisionView::Advance(SolverAction::ResolveForeignCall),
        ),
        ReportView::RequiresAcirCall { id } => (
            ContextView {
                frames: m.frames.push((m.current_circuit_id, m.position.acir_index)),
                current_circuit_id: id,
                ..m
            },
            DecisionView::Advance(SolverAction::EnterCircuit { id }),
        ),
        ReportView::BrilligFinished => (m, DecisionView::Advance(SolverAction::FinishBrillig)),
        ReportView::ForeignCallResolved => (m, DecisionView::Advance(step_action(shape, m))),
    }
}

/// The start of a command: refused with `Done` where execution is over, has
/// failed or has no opcode left; else the first action.
pub open spec fn spec_begin(
    shape: ShapeView,
    artifact: &DebugArtifact,
    m: ContextView,
    command: StepCommand,
) -> (ContextView, DecisionView) {
    if m.halted || current_location(shape, m) is None {
        finish(m, ResultView::Done)
    } else {
        let started = ContextView {
            running: Some(
                RunningView {
                    command,
                    entry_depth: call_stack(shape, m).len(),
                    entry_source: current_source(shape, artifact, m),
                    entry_acir_index: m.position.acir_index,
                    entry_in_brillig: m.position.brillig is Some,
                },
            ),
            ..m
        };
        (started, DecisionView::Advance(step_action(shape, started)))
    }
}

/// The command in hand, with what the engine noted when it began.
#[derive(Debug)]
pub struct RunningCommand {
    pub command: StepCommand,
    pub entry_depth: u128,
    pub entry_source: Option<Vec<Location>>,
    pub entry_acir_index: usize,
    pub entry_in_brillig: bool,
}

/// The engine: the program's shape and symbols, the breakpoints, and where
/// execution stands.
#[derive(Debug)]
pub struct DebugContext {
    pub shape: ProgramShape,
    pub artifact: DebugArtifact,
    /// The user's messages for constraints, by the location of the constraint.
    pub assert_messages: Vec<(DebugLocation, String)>,
    pub breakpoints: Vec<DebugLocation>,
    pub current_circuit_id: u32,
    pub position: SolverSnapshot,
    pub frames: Vec<(u32, usize)>,
    pub running: Option<RunningCommand>,
    pub halted: bool,
    pub solved: bool,
}

/// The models of the user's messages.
pub open spec fn message_views(messages: Seq<(DebugLocation, String)>) -> Seq<
    (DebugLocation, Seq<char>),
> {
    Seq::new(messages.len(), |i: int| (messages[i].0, messages[i].1@))
}

impl View for DebugContext {
    type V = ContextView;

    open spec fn view(&self) -> ContextView {
        ContextView {
            breakpoints: self.breakpoints@,
            current_circuit_id: self.current_circuit_id,
            position: self.position@,
            frames: self.frames@,
            running: match self.running {
                Some(run) => Some(
                    RunningView {
                        command: run.command,
                        entry_depth: run.entry_depth as nat,
                        entry_source: match run.entry_source {
                            Some(places) => Some(places@),
                            None => None,
                        },
                        entry_acir_index: run.entry_acir_index,
                        entry_in_brillig: run.entry_in_brillig,
                    },
                ),
                None => None,
            },
            halted: self.halted,
            solved: self.solved,
        }
    }
}

fn same_places(a: &Vec<Location>, b: &Vec<Location>) -> (same: bool)
    ensures
        same == (a@ == b@),
{
    if a.len() != b.len() {
        return false;
    }
    let mut i: usize = 0;
    while i < a.len()
        invariant
            0 <= i <= a.len(),
            a.len() == b.len(),
            forall|k: int| 0 <= k < i ==> a[k] == b[k],
        decreases a.len() - i,
    {
        if a[i] != b[i] {
            return false;
        }
        i += 1;
    }
    assert(a@ =~= b@);
    true
}

impl DebugContext {
    /// An engine at the start of execution, without breakpoints.
    pub fn new(
        shape: ProgramShape,
        artifact: DebugArtifact,
        assert_messages: Vec<(DebugLocation, String)>,
    ) -> (context: DebugContext)
        ensures
            context@ == initial_state(Seq::empty()),
            context.shape == shape,
            context.artifact == artifact,
            context.assert_messages == assert_messages,
    {
        DebugContext {
            shape,
            artifact,
            assert_messages,
            breakpoints: Vec::new(),
            current_circuit_id: 0,
            position: SolverSnapshot { acir_index: 0, brillig: None },
            frames: Vec::new(),
            running: None,
            halted: false,
            solved: false,
        }
    }

    /// Puts the engine back to the start of execution. The breakpoints stay.
    pub fn restart(&mut self)
        ensures
            final(self)@ == initial_state(old(self)@.breakpoints),
            final(self).shape == old(self).shape,
            final(self).artifact == old(self).artifact,
            final(self).assert_messages == old(self).assert_messages,
    {
        self.current_circuit_id = 0;
        self.position = SolverSnapshot { acir_index: 0, brillig: None };
        self.frames = Vec::new();
        self.running = None;
        self.halted = false;
        self.solved = false;
    }

    /// Whether a breakpoint is set at `location`.
    pub fn is_breakpoint_set(&self, location: &DebugLocation) -> (set: bool)
        ensures
            set == self@.breakpoints.contains(*location),
    {
        let mut i: usize = 0;
        while i < self.breakpoints.len()
            invariant
                0 <= i <= self.breakpoints.len(),
                forall|k: int| 0 <= k < i ==> self.breakpoints[k] != *location,
            decreases self.breakpoints.len() - i,
        {
            if self.breakpoints[i] == *location {
                return true;
            }
            i += 1;
        }
        false
    }

    /// Whether `location` exists in the program.
    pub fn is_valid_debug_location(&self, location: &DebugLocation) -> (valid: bool)
        ensures
            valid == crate::program::spec_is_valid_location(self.shape@, *location),
    {
        self.shape.is_valid_debug_location(location)
    }

    /// Sets a breakpoint at `location`. Returns whether it was added: not
    /// where the location does not exist in the program or the breakpoint
    /// was set already.
    pub fn add_breakpoint(&mut self, location: DebugLocation) -> (added: bool)
        ensures
            added == (crate::program::spec_is_valid_location(old(self).shape@, location) && !old(
                self,
            )@.breakpoints.contains(location)),
            final(self)@ == (ContextView {
                breakpoints: if added {
                    old(self)@.breakpoints.push(location)
                } else {
                    old(self)@.breakpoints
                },
                ..old(self)@
            }),
            final(self).shape == old(self).shape,
            final(self).artifact == old(self).artifact,
            final(self).assert_messages == old(self).assert_messages,
    {
        if !self.shape.is_valid_debug_location(&location) || self.is_breakpoint_set(&location) {
            return false;
        }
        self.breakpoints.push(location);
        true
    }

    /// Removes the breakpoint at `location`. Returns whether one was set.
    pub fn delete_breakpoint(&mut self, location: &DebugLocation) -> (deleted: bool)
        ensures
            deleted == old(self)@.breakpoints.contains(*location),
            final(self)@ == (ContextView {
                breakpoints: old(self)@.breakpoints.filter(|b: DebugLocation| b != *location),
                ..old(self)@
            }),
            final(self).shape == old(self).shape,
            final(self).artifact == old(self).artifact,
            final(self).assert_messages == old(self).assert_messages,
    {
        let mut kept: Vec<DebugLocation> = Vec::new();
        let mut deleted = false;
        let mut i: usize = 0;
        let ghost all = self.breakpoints@;
        let ghost wanted = |b: DebugLocation| b != *location;
        proof {
            reveal(Seq::filter);
        }
        while i < self.breakpoints.len()
            invariant
                0 <= i <= self.breakpoints.len(),
                self.breakpoints@ == all,
                wanted == |b: DebugLocation| b != *location,
                kept@ == all.take(i as int).filter(wanted),
                deleted == all.take(i as int).contains(*location),
            decreases self.breakpoints.len() - i,
        {
            let b = self.breakpoints[i];
            proof {
                reveal(Seq::filter);
                let prev = all.take(i as int);
                let next = all.take(i + 1);
                assert(next.drop_last() =~= prev);
                assert(next.last() == b);
                if next.contains(*location) && !prev.contains(*location) {
                    let k = choose|k: int| 0 <= k < next.len() && next[k] == *location;
                    if k < i {
                        assert(prev[k] == *location);
                    }
                }
                if prev.contains(*location) {
                    let k = choose|k: int| 0 <= k < prev.len() && prev[k] == *location;
                    assert(next[k] == *location);
                }
                if b == *location {
                    assert(next[i as int] == *location);
                }
            }
            if b == *location {
                deleted = true;
            } else {
                kept.push(b);
            }
            i += 1;
        }
        assert(all.take(i as int) =~= all);
        self.breakpoints = kept;
        deleted
    }

    /// The location at which execution stands, if the current circuit has an opcode left.
    pub fn get_current_debug_location(&self) -> (here: Option<DebugLocation>)
        ensures
            here == current_location(self.shape@, self@),
    {
        if self.position.acir_index < self.shape.opcode_count(self.current_circuit_id) {
            Some(
                match &self.position.brillig {
                    Some(b) => DebugLocation {
                        circuit_id: self.current_circuit_id,
                        opcode_location: OpcodeLocation::Brillig {
                            acir_index: self.position.acir_index,
                            brillig_index: b.program_counter,
                        },
                        brillig_function_id: Some(b.function_id),
                    },
                    None => DebugLocation {
                        circuit_id: self.current_circuit_id,
                        opcode_location: OpcodeLocation::Acir(self.position.acir_index),
                        brillig_function_id: None,
                    },
                },
            )
        } else {
            None
        }
    }

    /// The call stack, outermost first.
    pub fn get_call_stack(&self) -> (stack: Vec<DebugLocation>)
        ensures
            stack@ == call_stack(self.shape@, self@),
    {
        let mut stack: Vec<DebugLocation> = Vec::new();
        let mut i: usize = 0;
        while i < self.frames.len()
            invariant
                0 <= i <= self.frames.len(),
                stack.len() == i,
                forall|k: int|
                    0 <= k < i ==> stack[k] == (DebugLocation {
                        circuit_id: self.frames[k].0,
                        opcode_location: OpcodeLocation::Acir(self.frames[k].1),
                        brillig_function_id: None,
                    }),
            decreases self.frames.len() - i,
        {
            stack.push(
                DebugLocation {
                    circuit_id: self.frames[i].0,
                    opcode_location: OpcodeLocation::Acir(self.frames[i].1),
                    brillig_function_id: None,
                },
            );
            i += 1;
        }
        let ghost callers = stack@;
        match self.get_current_debug_location() {
            None => {
                assert(stack@ =~= call_stack(self.shape@, self@));
            },
            Some(here) => match &self.position.brillig {
                Some(b) => {
                    let mut k: usize = 0;
                    let ghost tail = Seq::new(
                        b.call_stack.len() as nat,
                        |j: int|
                            DebugLocation {
                                circuit_id: self.current_circuit_id,
                                opcode_location: OpcodeLocation::Brillig {
                                    acir_index: self.position.acir_index,
                                    brillig_index: b.call_stack[j],
                                },
                                brillig_function_id: Some(b.function_id),
                            },
                    );
                    assert(stack@ =~= callers + tail.take(0));
                    while k < b.call_stack.len()
                        invariant
                            0 <= k <= b.call_stack.len(),
                            tail.len() == b.call_stack.len(),
                            forall|j: int|
                                0 <= j < tail.len() ==> #[trigger] tail[j] == (DebugLocation {
                                    circuit_id: self.current_circuit_id,
                                    opcode_location: OpcodeLocation::Brillig {
                                        acir_index: self.position.acir_index,
                                        brillig_index: b.call_stack[j],
                                    },
                                    brillig_function_id: Some(b.function_id),
                                }),
                            stack@ == callers + tail.take(k as int),
                        decreases b.call_stack.len() - k,
                    {
                        stack.push(
                            DebugLocation {
                                circuit_id: self.current_circuit_id,
                                opcode_location: OpcodeLocation::Brillig {
                                    acir_index: self.position.acir_index,
                                    brillig_index: b.call_stack[k],
                                },
                                brillig_function_id: Some(b.function_id),
                            },
                        );
                        assert(stack@ =~= callers + tail.take(k + 1));
                        k += 1;
                    }
                    assert(tail.take(k as int) =~= tail);
                    assert(callers =~= Seq::new(
                        self.frames.len() as nat,
                        |i: int|
                            DebugLocation {
                                circuit_id: self.frames[i].0,
                                opcode_location: OpcodeLocation::Acir(self.frames[i].1),
                                brillig_function_id: None,
                            },
                    ));
                    assert(stack@ =~= call_stack(self.shape@, self@));
                },
                None => {
                    stack.push(here);
                    assert(stack@ =~= call_stack(self.shape@, self@));
                },
            },
        }
        stack
    }

    /// The depth of the call stack.
    pub fn call_depth(&self) -> (depth: u128)
        ensures
            depth == call_stack(self.shape@, self@).len(),
    {
        let callers = self.frames.len() as u128;
        match self.get_current_debug_location() {
            None => callers,
            Some(_) => match &self.position.brillig {
                Some(b) => callers + b.call_stack.len() as u128,
                None => callers + 1,
            },
        }
    }

    /// Whether a bytecode call is open.
    pub fn is_executing_brillig(&self) -> (open: bool)
        ensures
            open == (self@.position.brillig is Some),
    {
        self.position.brillig.is_some()
    }

    /// Whether the outermost circuit is solved.
    pub fn is_solved(&self) -> (solved: bool)
        ensures
            solved == self@.solved,
    {
        self.solved
    }

    /// The source places of the opcode at which execution stands.
    pub fn get_current_source_location(&self) -> (places: Option<&Vec<Location>>)
        ensures
            match places {
                Some(v) => current_source(self.shape@, &self.artifact, self@) == Some(v@),
                None => current_source(self.shape@, &self.artifact, self@).is_none(),
            },
    {
        match self.get_current_debug_location() {
            Some(here) => self.artifact.source_locations(&here),
            None => None,
        }
    }
}

impl DebugContext {
    fn next_step_action(&self) -> (action: SolverAction)
        ensures
            action == step_action(self.shape@, self@),
    {
        if self.position.brillig.is_some() {
            return SolverAction::StepBrillig;
        }
        let by_circuit_opcode = match &self.running {
            Some(run) => match run.command {
                StepCommand::StepAcirOpcode => true,
                _ => false,
            },
            None => true,
        };
        if by_circuit_opcode {
            return SolverAction::SolveOpcode;
        }
        match self.shape.opcode_kind(self.current_circuit_id, self.position.acir_index) {
            Some(OpcodeKind::BrilligCall { .. }) => SolverAction::StepIntoBrillig,
            _ => SolverAction::SolveOpcode,
        }
    }

    fn breakpoint_hit(&self, here: DebugLocation) -> (hit: Option<DebugLocation>)
        ensures
            hit == hit_breakpoint(self@.breakpoints, here),
    {
        if self.is_breakpoint_set(&here) {
            return Some(here);
        }
        match here.opcode_location {
            OpcodeLocation::Brillig { acir_index, brillig_index } => {
                let call = DebugLocation {
                    circuit_id: here.circuit_id,
                    opcode_location: OpcodeLocation::Acir(acir_index),
                    brillig_function_id: None,
                };
                if brillig_index == 0 && self.is_breakpoint_set(&call) {
                    Some(call)
                } else {
                    None
                }
            },
            _ => None,
        }
    }

    fn settled(&self) -> (result: DebugCommandResult)
        ensures
            result@ == settle(self.shape@, self@),
    {
        match self.get_current_debug_location() {
            None => DebugCommandResult::Okay,
            Some(here) => match self.breakpoint_hit(here) {
                Some(b) => DebugCommandResult::BreakpointReached(b),
                None => DebugCommandResult::Okay,
            },
        }
    }

    fn command_goes_on(&self) -> (more: bool)
        requires
            self.running is Some,
        ensures
            more == goes_on(self.shape@, &self.artifact, self@, self@.running.unwrap()),
    {
        if self.get_current_debug_location().is_none() {
            return false;
        }
        match &self.running {
            None => false,
            Some(run) => {
                let changed = match self.get_current_source_location() {
                    None => false,
                    Some(now) => match &run.entry_source {
                        None => true,
                        Some(then) => !same_places(now, then),
                    },
                };
                match run.command {
                    StepCommand::StepIntoOpcode => false,
                    StepCommand::StepAcirOpcode => run.entry_in_brillig && self.position.acir_index
                        == run.entry_acir_index,
                    StepCommand::NextInto => !changed,
                    StepCommand::NextOver => !(changed && self.call_depth() == run.entry_depth),
                    StepCommand::NextOut => !(changed && self.call_depth() < run.entry_depth),
                    StepCommand::Cont => true,
                }
            },
        }
    }

    fn finish_with(&mut self, result: DebugCommandResult) -> (decision: Decision)
        ensures
            (final(self)@, decision@) == finish(old(self)@, result@),
            final(self).shape == old(self).shape,
            final(self).artifact == old(self).artifact,
            final(self).assert_messages == old(self).assert_messages,
    {
        let terminal = match &result {
            DebugCommandResult::Done => true,
            DebugCommandResult::Error(_) => true,
            _ => false,
        };
        self.running = None;
        self.halted = self.halted || terminal;
        Decision::Finish(result)
    }

    fn after_step(&mut self, result: DebugCommandResult) -> (decision: Decision)
        ensures
            (final(self)@, decision@) == step_done(
                old(self).shape@,
                &old(self).artifact,
                old(self)@,
                result@,
            ),
            final(self).shape == old(self).shape,
            final(self).artifact == old(self).artifact,
            final(self).assert_messages == old(self).assert_messages,
    {
        let went_well = match &result {
            DebugCommandResult::Okay => true,
            _ => false,
        };
        if self.running.is_some() && went_well && self.command_goes_on() {
            Decision::Advance(self.next_step_action())
        } else {
            self.finish_with(result)
        }
    }

    fn message_for(&self, here: &DebugLocation) -> (found: Option<&String>)
        ensures
            match found {
                Some(text) => assertion_message(message_views(self.assert_messages@), *here)
                    == Some(text@),
                None => assertion_message(message_views(self.assert_messages@), *here).is_none(),
            },
    {
        let ghost all = message_views(self.assert_messages@);
        let mut i: usize = 0;
        assert(all.skip(0) =~= all);
        while i < self.assert_messages.len()
            invariant
                0 <= i <= self.assert_messages.len(),
                all == message_views(self.assert_messages@),
                assertion_message(all, *here) == assertion_message(all.skip(i as int), *here),
            decreases self.assert_messages.len() - i,
        {
            proof {
                assert(all.skip(i as int)[0] == all[i as int]);
                assert(all.skip(i as int).drop_first() =~= all.skip(i + 1));
            }
            if self.assert_messages[i].0 == *here {
                return Some(&self.assert_messages[i].1);
            }
            i += 1;
        }
        assert(all.skip(i as int).len() == 0);
        None
    }

    fn constraint_failure(&self, solver_message: String) -> (error: ExecutionError)
        ensures
            error@ == constraint_error(
                message_views(self.assert_messages@),
                call_stack(self.shape@, self@),
                solver_message@,
            ),
    {
        let stack = self.get_call_stack();
        if stack.len() > 0 {
            let last = stack[stack.len() - 1];
            match self.message_for(&last) {
                Some(text) => {
                    return ExecutionError::AssertionFailed(text.clone(), stack);
                },
                None => {},
            }
        }
        ExecutionError::SolvingError(solver_message)
    }

    /// Begins a stepping command. Where execution is over, has failed, or no
    /// opcode is left, the command is refused with `Done`; else the engine
    /// notes where it stands and names the first action.
    pub fn begin(&mut self, command: StepCommand) -> (decision: Decision)
        ensures
            (final(self)@, decision@) == spec_begin(
                old(self).shape@,
                &old(self).artifact,
                old(self)@,
                command,
            ),
            final(self).shape == old(self).shape,
            final(self).artifact == old(self).artifact,
            final(self).assert_messages == old(self).assert_messages,
    {
        if self.halted || self.get_current_debug_location().is_none() {
            return self.finish_with(DebugCommandResult::Done);
        }
        let entry_source = match self.get_current_source_location() {
            Some(places) => Some(slice_to_vec(places.as_slice())),
            None => None,
        };
        let run = RunningCommand {
            command,
            entry_depth: self.call_depth(),
            entry_source,
            entry_acir_index: self.position.acir_index,
            entry_in_brillig: self.position.brillig.is_some(),
        };
        self.running = Some(run);
        Decision::Advance(self.next_step_action())
    }

    /// Takes what came of the last action, with the solver's new position,
    /// and decides: the next action, or the end of the command and its result.
    pub fn on_report(&mut self, report: SolverReport, snapshot: SolverSnapshot) -> (decision:
        Decision)
        ensures
            (final(self)@, decision@) == spec_on_report(
                old(self).shape@,
                &old(self).artifact,
                message_views(old(self).assert_messages@),
                old(self)@,
                report@,
                snapshot@,
            ),
            final(self).shape == old(self).shape,
            final(self).artifact == old(self).artifact,
            final(self).assert_messages == old(self).assert_messages,
    {
        self.position = snapshot;
        match report {
            SolverReport::Solved => {
                match self.frames.pop() {
                    None => {
                        self.solved = true;
                        self.finish_with(DebugCommandResult::Done)
                    },
                    Some((circuit_id, _)) => {
                        self.current_circuit_id = circuit_id;
                        Decision::Advance(SolverAction::ReturnToCaller)
                    },
                }
            },
            SolverReport::InProgress
            | SolverReport::EnteredBrillig
            | SolverReport::BrilligInProgress
            | SolverReport::EnteredCircuit => {
                let result = self.settled();
                self.after_step(result)
            },
            SolverReport::Failure(SolverFailure::UnsatisfiedConstraint(text)) => {
                let error = self.constraint_failure(text);
                self.finish_with(DebugCommandResult::Error(error))
            },
            SolverReport::Failure(SolverFailure::BrilligFunctionFailed(text)) => {
                let stack = self.get_call_stack();
                self.finish_with(DebugCommandResult::Error(ExecutionError::BrilligFailed(text, stack)))
            },
            SolverReport::BrilligFailure(text) => {
                let stack = self.get_call_stack();
                self.finish_with(DebugCommandResult::Error(ExecutionError::BrilligFailed(text, stack)))
            },
            SolverReport::Failure(SolverFailure::Other(text)) => self.finish_with(
                DebugCommandResult::Error(ExecutionError::SolvingError(text)),
            ),
            SolverReport::ForeignCallFailed(text) => self.finish_with(
                DebugCommandResult::Error(ExecutionError::SolvingError(text)),
            ),
            SolverReport::RequiresForeignCall | SolverReport::BrilligForeignCallWait => {
                Decision::Advance(SolverAction::ResolveForeignCall)
            },
            SolverReport::RequiresAcirCall { id } => {
                self.frames.push((self.current_circuit_id, self.position.acir_index));
                self.current_circuit_id = id;
                Decision::Advance(SolverAction::EnterCircuit { id })
            },
            SolverReport::BrilligFinished => Decision::Advance(SolverAction::FinishBrillig),
            SolverReport::ForeignCallResolved => Decision::Advance(self.next_step_action()),
        }
    }
}

/// Whether a report says that an opcode ran through: the solver went on, a
/// bytecode call or a called circuit was opened, or a bytecode opcode ran.
pub open spec fn ran_through(report: ReportView) -> bool {
    report is InProgress || report is EnteredBrillig || report is BrilligInProgress
        || report is EnteredCircuit
}

/// What the front-end sends to the engine.
pub enum EngineInput {
    /// A stepping command.
    Begin(StepCommand),
    /// What came of the action that the engine asked for.
    Report(ReportView, SnapshotView),
}

/// The engine's decisions on a sequence of inputs, with the state at the end.
pub open spec fn spec_run(
    shape: ShapeView,
    artifact: &DebugArtifact,
    messages: Seq<(DebugLocation, Seq<char>)>,
    m: ContextView,
    inputs: Seq<EngineInput>,
) -> (ContextView, Seq<DecisionView>)
    decreases inputs.len(),
{
    if inputs.len() == 0 {
        (m, Seq::empty())
    } else {
        let (before, decisions) = spec_run(shape, artifact, messages, m, inputs.drop_last());
        let (after, decision) = match inputs.last() {
            EngineInput::Begin(command) => spec_begin(shape, artifact, before, command),
            EngineInput::Report(report, snapshot) => spec_on_report(
                shape,
                artifact,
                messages,
                before,
                report,
                snapshot,
            ),
        };
        (after, decisions.push(decision))
    }
}

/// A step-into command asks for one opcode to be run, and ends at the first
/// report that says that an opcode ran through.
pub proof fn lemma_step_into_runs_one_opcode(
    shape: ShapeView,
    artifact: &DebugArtifact,
    messages: Seq<(DebugLocation, Seq<char>)>,
    m: ContextView,
    report: ReportView,
    snapshot: SnapshotView,
)
    requires
        !m.halted,
        current_location(shape, m) is Some,
        ran_through(report),
    ensures
        ({
            let (started, first) = spec_begin(shape, artifact, m, StepCommand::StepIntoOpcode);
            &&& first == DecisionView::Advance(SolverAction::StepBrillig) || first
                == DecisionView::Advance(SolverAction::StepIntoBrillig) || first
                == DecisionView::Advance(SolverAction::SolveOpcode)
            &&& spec_on_report(shape, artifact, messages, started, report, snapshot).1 is Finish
        }),
{
}

/// A step-over command hands control back only at the depth of the call
/// stack at which it began and at other source places, or where no opcode is
/// left, or with a result other than `Okay`: at a breakpoint, at the end, or
/// on an error.
pub proof fn lemma_next_over_returns_at_entry_depth(
    shape: ShapeView,
    artifact: &DebugArtifact,
    messages: Seq<(DebugLocation, Seq<char>)>,
    m: ContextView,
    report: ReportView,
    snapshot: SnapshotView,
)
    requires
        m.running matches Some(run) && run.command == StepCommand::NextOver,
    ensures
        ({
            let (after, decision) = spec_on_report(shape, artifact, messages, m, report, snapshot);
            decision matches DecisionView::Finish(r) ==> !(r is Okay) || current_location(
                shape,
                after,
            ) is None || (call_stack(shape, after).len() == m.running.unwrap().entry_depth && source_changed(
                shape,
                artifact,
                after,
                m.running.unwrap(),
            ))
        }),
{
    let started = ContextView { position: snapshot, ..m };
    let (after, decision) = spec_on_report(shape, artifact, messages, m, report, snapshot);
    if decision matches DecisionView::Finish(r) && r is Okay {
        assert(current_location(shape, after) == current_location(shape, started));
        assert(call_stack(shape, after) == call_stack(shape, started));
        assert(current_source(shape, artifact, after) == current_source(shape, artifact, started));
    }
}

/// A step-out command hands control back only below the depth of the call
/// stack at which it began and at other source places, or where no opcode is
/// left, or with a result other than `Okay`: at a breakpoint, at the end, or
/// on an error.
pub proof fn lemma_next_out_returns_below_entry_depth(
    shape: ShapeView,
    artifact: &DebugArtifact,
    messages: Seq<(DebugLocation, Seq<char>)>,
    m: ContextView,
    report: ReportView,
    snapshot: SnapshotView,
)
    requires
        m.running matches Some(run) && run.command == StepCommand::NextOut,
    ensures
        ({
            let (after, decision) = spec_on_report(shape, artifact, messages, m, report, snapshot);
            decision matches DecisionView::Finish(r) ==> !(r is Okay) || current_location(
                shape,
                after,
            ) is None || (call_stack(shape, after).len() < m.running.unwrap().entry_depth && source_changed(
                shape,
                artifact,
                after,
                m.running.unwrap(),
            ))
        }),
{
    let started = ContextView { position: snapshot, ..m };
    let (after, decision) = spec_on_report(shape, artifact, messages, m, report, snapshot);
    if decision matches DecisionView::Finish(r) && r is Okay {
        assert(current_location(shape, after) == current_location(shape, started));
        assert(call_stack(shape, after) == call_stack(shape, started));
        assert(current_source(shape, artifact, after) == current_source(shape, artifact, started));
    }
}

/// Execution does not run past a breakpoint: when an opcode has run through
/// and execution stands at a location with a breakpoint, the command in hand
/// ends with that breakpoint as its result, whatever the command.
pub proof fn lemma_stops_at_breakpoint(
    shape: ShapeView,
    artifact: &DebugArtifact,
    messages: Seq<(DebugLocation, Seq<char>)>,
    m: ContextView,
    report: ReportView,
    snapshot: SnapshotView,
    at: DebugLocation,
)
    requires
        ran_through(report),
        m.breakpoints.contains(at),
        current_location(shape, ContextView { position: snapshot, ..m }) == Some(at),
    ensures
        spec_on_report(shape, artifact, messages, m, report, snapshot).1 == DecisionView::Finish(
            ResultView::BreakpointReached(at),
        ),
{
}

/// The breakpoints are a set: where none is set twice, none is after one is
/// added that was not set, or after one is deleted; and a deleted one is gone.
pub proof fn lemma_breakpoints_stay_distinct(
    breakpoints: Seq<DebugLocation>,
    location: DebugLocation,
)
    requires
        breakpoints.no_duplicates(),
    ensures
        !breakpoints.contains(location) ==> breakpoints.push(location).no_duplicates(),
        breakpoints.filter(|b: DebugLocation| b != location).no_duplicates(),
        forall|x: DebugLocation|
            breakpoints.filter(|b: DebugLocation| b != location).contains(x) <==> breakpoints.contains(
                x,
            ) && x != location,
    decreases breakpoints.len(),
{
    reveal(Seq::filter);
    let wanted = |b: DebugLocation| b != location;
    if breakpoints.len() > 0 {
        let init = breakpoints.drop_last();
        let last = breakpoints.last();
        lemma_breakpoints_stay_distinct(init, location);
        let kept = init.filter(wanted);
        assert(!init.contains(last));
        assert forall|x: DebugLocation| breakpoints.contains(x) <==> init.contains(x) || x
            == last by {
            if breakpoints.contains(x) {
                let k = choose|k: int| 0 <= k < breakpoints.len() && breakpoints[k] == x;
                if k < init.len() {
                    assert(init[k] == x);
                }
            }
            if init.contains(x) {
                let k = choose|k: int| 0 <= k < init.len() && init[k] == x;
                assert(breakpoints[k] == x);
            }
            assert(breakpoints[breakpoints.len() - 1] == last);
        }
        if wanted(last) {
            assert(breakpoints.filter(wanted) == kept.push(last));
            assert forall|x: DebugLocation| kept.push(last).contains(x) <==> kept.contains(x) || x
                == last by {
                if kept.push(last).contains(x) {
                    let k = choose|k: int| 0 <= k < kept.push(last).len() && kept.push(last)[k] == x;
                    if k < kept.len() {
                        assert(kept[k] == x);
                    }
                }
                if kept.contains(x) {
                    let k = choose|k: int| 0 <= k < kept.len() && kept[k] == x;
                    assert(kept.push(last)[k] == x);
                }
                assert(kept.push(last)[kept.len() as int] == last);
            }
            assert(!kept.contains(last));
        } else {
            assert(breakpoints.filter(wanted) == kept);
        }
    }
}

/// A breakpoint that a command reports is one that is set.
pub proof fn lemma_reported_breakpoint_is_set(
    shape: ShapeView,
    artifact: &DebugArtifact,
    messages: Seq<(DebugLocation, Seq<char>)>,
    m: ContextView,
    report: ReportView,
    snapshot: SnapshotView,
)
    ensures
        spec_on_report(shape, artifact, messages, m, report, snapshot).1 matches DecisionView::Finish(
            ResultView::BreakpointReached(at),
        ) ==> m.breakpoints.contains(at),
{
}

/// Without breakpoints no command ends at one: a run to the end is not held up.
pub proof fn lemma_no_breakpoints_no_stop(
    shape: ShapeView,
    artifact: &DebugArtifact,
    messages: Seq<(DebugLocation, Seq<char>)>,
    m: ContextView,
    report: ReportView,
    snapshot: SnapshotView,
)
    requires
        m.breakpoints.len() == 0,
    ensures
        !(spec_on_report(shape, artifact, messages, m, report, snapshot).1 matches DecisionView::Finish(
            ResultView::BreakpointReached(_),
        )),
{
    lemma_reported_breakpoint_is_set(shape, artifact, messages, m, report, snapshot);
}

/// After an end or an error every stepping command is refused with `Done`,
/// and the state stays as it is.
pub proof fn lemma_halted_refuses(
    shape: ShapeView,
    artifact: &DebugArtifact,
    m: ContextView,
    command: StepCommand,
)
    requires
        m.halted,
        m.running is None,
    ensures
        spec_begin(shape, artifact, m, command) == (m, DecisionView::Finish(ResultView::Done)),
{
}

/// After a restart the engine decides on any inputs as an engine does that
/// was never run and has the same breakpoints: earlier runs leave no trace.
pub proof fn lemma_restart_replays(
    shape: ShapeView,
    artifact: &DebugArtifact,
    messages: Seq<(DebugLocation, Seq<char>)>,
    first: ContextView,
    second: ContextView,
    inputs: Seq<EngineInput>,
)
    requires
        first.breakpoints == second.breakpoints,
    ensures
        spec_run(shape, artifact, messages, initial_state(first.breakpoints), inputs) == spec_run(
            shape,
            artifact,
            messages,
            initial_state(second.breakpoints),
            inputs,
        ),
{
}

/// The better of the best opcode so far and a candidate, for a wanted line:
/// the candidate where it is not above the wanted line and is on a lower
/// line than the best so far.
pub open spec fn better(
    best: Option<(nat, DebugLocation)>,
    line: nat,
    at: DebugLocation,
    wanted: nat,
) -> Option<(nat, DebugLocation)> {
    if line >= wanted && (best is None || line < best.unwrap().0) {
        Some((line, at))
    } else {
        best
    }
}

/// The best opcode after the first `n` places of an opcode were looked at.
pub open spec fn scan_places(
    artifact: &DebugArtifact,
    best: Option<(nat, DebugLocation)>,
    places: Seq<Location>,
    n: nat,
    file: u32,
    at: DebugLocation,
    wanted: nat,
) -> Option<(nat, DebugLocation)>
    decreases n,
{
    if n == 0 || n > places.len() {
        best
    } else {
        let before = scan_places(artifact, best, places, (n - 1) as nat, file, at, wanted);
        let place = places[n - 1];
        if place.file == file {
            match artifact.spec_location_line_number(place) {
                Some(line) => better(before, line, at, wanted),
                None => before,
            }
        } else {
            before
        }
    }
}

/// The location of an opcode of a circuit, with the function of a bytecode opcode.
pub open spec fn located(shape: ShapeView, circuit_id: u32, l: OpcodeLocation) -> DebugLocation {
    DebugLocation {
        circuit_id,
        opcode_location: l,
        brillig_function_id: match l {
            OpcodeLocation::Brillig { acir_index, .. } => if circuit_id < shape.circuits.len()
                && acir_index < shape.circuits[circuit_id as int].len() {
                match shape.circuits[circuit_id as int][acir_index as int] {
                    OpcodeKind::BrilligCall { id } => Some(id),
                    _ => None,
                }
            } else {
                None
            },
            OpcodeLocation::Acir(_) => None,
        },
    }
}

/// The best opcode after the first `n` opcodes of a circuit were looked at.
pub open spec fn scan_entries(
    shape: ShapeView,
    artifact: &DebugArtifact,
    best: Option<(nat, DebugLocation)>,
    entries: Seq<(OpcodeLocation, Vec<Location>)>,
    n: nat,
    circuit_id: u32,
    file: u32,
    wanted: nat,
) -> Option<(nat, DebugLocation)>
    decreases n,
{
    if n == 0 || n > entries.len() {
        best
    } else {
        let before = scan_entries(
            shape,
            artifact,
            best,
            entries,
            (n - 1) as nat,
            circuit_id,
            file,
            wanted,
        );
        scan_places(
            artifact,
            before,
            entries[n - 1].1@,
            entries[n - 1].1@.len(),
            file,
            located(shape, circuit_id, entries[n - 1].0),
            wanted,
        )
    }
}

/// The best opcode after the first `n` circuits were looked at.
pub open spec fn scan_circuits(
    shape: ShapeView,
    artifact: &DebugArtifact,
    n: nat,
    file: u32,
    wanted: nat,
) -> Option<(nat, DebugLocation)>
    decreases n,
{
    if n == 0 || n > artifact.debug_symbols.len() || n > u32::MAX {
        None
    } else {
        let before = scan_circuits(shape, artifact, (n - 1) as nat, file, wanted);
        scan_entries(
            shape,
            artifact,
            before,
            artifact.debug_symbols[n - 1].locations@,
            artifact.debug_symbols[n - 1].locations@.len(),
            (n - 1) as u32,
            file,
            wanted,
        )
    }
}

/// The number of circuits that have symbols and an id.
pub open spec fn circuits_with_symbols(artifact: &DebugArtifact) -> nat {
    if artifact.debug_symbols.len() > u32::MAX {
        u32::MAX as nat
    } else {
        artifact.debug_symbols.len() as nat
    }
}

/// The opcode for a line of the file in which execution stands: among the
/// opcodes that come from that file and from no line above the wanted one,
/// the first of those on the lowest line. `None` where the line is negative,
/// execution stands at no source place, or there is no such opcode.
pub open spec fn spec_find_opcode_at_line(
    shape: ShapeView,
    artifact: &DebugArtifact,
    m: ContextView,
    line: i64,
) -> Option<DebugLocation> {
    match current_source(shape, artifact, m) {
        Some(places) => if places.len() > 0 && line >= 0 {
            match scan_circuits(
                shape,
                artifact,
                circuits_with_symbols(artifact),
                places[0].file,
                line as nat,
            ) {
                Some(best) => Some(best.1),
                None => None,
            }
        } else {
            None
        },
        None => None,
    }
}

impl DebugContext {
    fn located_at(&self, circuit_id: u32, l: OpcodeLocation) -> (at: DebugLocation)
        ensures
            at == located(self.shape@, circuit_id, l),
    {
        let brillig_function_id = match l {
            OpcodeLocation::Brillig { acir_index, .. } => match self.shape.opcode_kind(
                circuit_id,
                acir_index,
            ) {
                Some(OpcodeKind::BrilligCall { id }) => Some(id),
                _ => None,
            },
            OpcodeLocation::Acir(_) => None,
        };
        DebugLocation { circuit_id, opcode_location: l, brillig_function_id }
    }

    fn scan_opcode(
        &self,
        best: Option<(u64, DebugLocation)>,
        places: &Vec<Location>,
        at: DebugLocation,
        file: u32,
        wanted: u64,
    ) -> (out: Option<(u64, DebugLocation)>)
        ensures
            widen(out) == scan_places(
                &self.artifact,
                widen(best),
                places@,
                places@.len(),
                file,
                at,
                wanted as nat,
            ),
    {
        let mut found = best;
        let mut k: usize = 0;
        while k < places.len()
            invariant
                0 <= k <= places.len(),
                widen(found) == scan_places(
                    &self.artifact,
                    widen(best),
                    places@,
                    k as nat,
                    file,
                    at,
                    wanted as nat,
                ),
            decreases places.len() - k,
        {
            let place = places[k];
            if place.file == file {
                match self.artifact.location_line_number(&place) {
                    Some(line) => {
                        let lower = match found {
                            Some((best_line, _)) => line < best_line,
                            None => true,
                        };
                        if line >= wanted && lower {
                            found = Some((line, at));
                        }
                    },
                    None => {},
                }
            }
            k += 1;
        }
        found
    }

    fn scan_circuit(
        &self,
        best: Option<(u64, DebugLocation)>,
        info: &DebugInfo,
        circuit_id: u32,
        file: u32,
        wanted: u64,
    ) -> (out: Option<(u64, DebugLocation)>)
        ensures
            widen(out) == scan_entries(
                self.shape@,
                &self.artifact,
                widen(best),
                info.locations@,
                info.locations@.len(),
                circuit_id,
                file,
                wanted as nat,
            ),
    {
        let mut found = best;
        let mut i: usize = 0;
        while i < info.locations.len()
            invariant
                0 <= i <= info.locations.len(),
                widen(found) == scan_entries(
                    self.shape@,
                    &self.artifact,
                    widen(best),
                    info.locations@,
                    i as nat,
                    circuit_id,
                    file,
                    wanted as nat,
                ),
            decreases info.locations.len() - i,
        {
            let at = self.located_at(circuit_id, info.locations[i].0);
            found = self.scan_opcode(found, &info.locations[i].1, at, file, wanted);
            i += 1;
        }
        found
    }

    /// The opcode for a line of the file in which execution stands.
    pub fn find_opcode_at_current_file_line(&self, line: i64) -> (at: Option<DebugLocation>)
        ensures
            at == spec_find_opcode_at_line(self.shape@, &self.artifact, self@, line),
    {
        let file = match self.get_current_source_location() {
            Some(places) => {
                if places.len() == 0 {
                    return None;
                }
                places[0].file
            },
            None => {
                return None;
            },
        };
        if line < 0 {
            return None;
        }
        let wanted = line as u64;
        let count: usize = if self.artifact.debug_symbols.len() > u32::MAX as usize {
            u32::MAX as usize
        } else {
            self.artifact.debug_symbols.len()
        };
        let mut found: Option<(u64, DebugLocation)> = None;
        let mut c: usize = 0;
        while c < count
            invariant
                0 <= c <= count,
                count == circuits_with_symbols(&self.artifact),
                widen(found) == scan_circuits(
                    self.shape@,
                    &self.artifact,
                    c as nat,
                    file,
                    wanted as nat,
                ),
            decreases count - c,
        {
            found = self.scan_circuit(found, &self.artifact.debug_symbols[c], c as u32, file, wanted);
            c += 1;
        }
        match found {
            Some((_, at)) => Some(at),
            None => None,
        }
    }
}

/// The best opcode with its line as a natural number.
pub open spec fn widen(best: Option<(u64, DebugLocation)>) -> Option<(nat, DebugLocation)> {
    match best {
        Some((line, at)) => Some((line as nat, at)),
        None => None,
    }
}

/// The opcode that is found for a line is on a line that is not below the
/// wanted one and not above that of any place that was looked at, belongs to
/// the file and is not below the wanted line.
pub proof fn lemma_scan_places_lowest(
    artifact: &DebugArtifact,
    best: Option<(nat, DebugLocation)>,
    places: Seq<Location>,
    n: nat,
    file: u32,
    at: DebugLocation,
    wanted: nat,
    k: int,
)
    requires
        0 <= k < n <= places.len(),
        places[k].file == file,
        artifact.spec_location_line_number(places[k]) matches Some(line) && line >= wanted,
        best matches Some(b) ==> b.0 >= wanted,
    ensures
        scan_places(artifact, best, places, n, file, at, wanted) matches Some(found) && wanted
            <= found.0 <= artifact.spec_location_line_number(places[k]).unwrap(),
    decreases n,
{
    lemma_scan_places_keeps(artifact, best, places, (n - 1) as nat, file, at, wanted);
    if k < n - 1 {
        lemma_scan_places_lowest(artifact, best, places, (n - 1) as nat, file, at, wanted, k);
    }
}

/// Looking at more places does not lose a best opcode, nor raise its line,
/// nor find one below the wanted line.
pub proof fn lemma_scan_places_keeps(
    artifact: &DebugArtifact,
    best: Option<(nat, DebugLocation)>,
    places: Seq<Location>,
    n: nat,
    file: u32,
    at: DebugLocation,
    wanted: nat,
)
    requires
        n <= places.len(),
        best matches Some(b) ==> b.0 >= wanted,
    ensures
        best matches Some(b) ==> scan_places(artifact, best, places, n, file, at, wanted) matches Some(
            found,
        ) && found.0 <= b.0,
        scan_places(artifact, best, places, n, file, at, wanted) matches Some(found) ==> found.0
            >= wanted,
    decreases n,
{
    if n > 0 {
        lemma_scan_places_keeps(artifact, best, places, (n - 1) as nat, file, at, wanted);
    }
}

} // verus!
