//! The messages between a front-end and the engine: every command, every
//! result, which result answers which command, and what the engine answers
//! by itself.

use crate::debug_vars::{DebugStackFrame, DebugVars};
use crate::engine::{
    call_stack, ContextView, current_location, DebugCommandResult, DebugContext, Decision,
    DecisionView, initial_state, spec_begin, spec_find_opcode_at_line, StepCommand,
};
use crate::field::FieldElement;
use crate::location::DebugLocation;
use crate::program::{Location, spec_is_valid_location};
use vstd::prelude::*;
use vstd::slice::slice_to_vec;

verus! {

/// The number of bits of the circuit's field.
pub const FIELD_BITS: u32 = 254;

/// The width of an integer cell of the bytecode machine's memory.
#[derive(Clone, Copy, Debug, PartialEq, Eq, Structural)]
pub enum IntegerBitSize {
    U1,
    U8,
    U16,
    U32,
    U64,
    U128,
}

/// The width of a cell of the bytecode machine's memory.
#[derive(Clone, Copy, Debug, PartialEq, Eq, Structural)]
pub enum BitSize {
    Field,
    Integer(IntegerBitSize),
}

/// The width that a number of bits names: the field for the field's number
/// of bits, an integer width for 1, 8, 16, 32, 64 and 128, none else.
pub open spec fn spec_bit_size(bits: u32) -> Option<BitSize> {
    if bits == FIELD_BITS {
        Some(BitSize::Field)
    } else if bits == 1 {
        Some(BitSize::Integer(IntegerBitSize::U1))
    } else if bits == 8 {
        Some(BitSize::Integer(IntegerBitSize::U8))
    } else if bits == 16 {
        Some(BitSize::Integer(IntegerBitSize::U16))
    } else if bits == 32 {
        Some(BitSize::Integer(IntegerBitSize::U32))
    } else if bits == 64 {
        Some(BitSize::Integer(IntegerBitSize::U64))
    } else if bits == 128 {
        Some(BitSize::Integer(IntegerBitSize::U128))
    } else {
        None
    }
}

impl BitSize {
    /// The width that a number of bits names.
    pub fn try_from_u32(bits: u32) -> (size: Option<BitSize>)
        ensures
            size == spec_bit_size(bits),
    {
        if bits == FIELD_BITS {
            Some(BitSize::Field)
        } else if bits == 1 {
            Some(BitSize::Integer(IntegerBitSize::U1))
        } else if bits == 8 {
            Some(BitSize::Integer(IntegerBitSize::U8))
        } else if bits == 16 {
            Some(BitSize::Integer(IntegerBitSize::U16))
        } else if bits == 32 {
            Some(BitSize::Integer(IntegerBitSize::U32))
        } else if bits == 64 {
            Some(BitSize::Integer(IntegerBitSize::U64))
        } else if bits == 128 {
            Some(BitSize::Integer(IntegerBitSize::U128))
        } else {
            None
        }
    }
}

/// A cell of the bytecode machine's memory.
#[derive(Clone, Copy, Debug, PartialEq, Eq, Structural)]
pub enum MemoryValue {
    Field(FieldElement),
    Integer(u128, IntegerBitSize),
}

/// A command to the engine.
#[derive(Clone, Copy, Debug, PartialEq, Eq, Structural)]
pub enum DebugCommandAPI {
    GetCurrentDebugLocation,
    GetOpcodes,
    GetOpcodesOfCircuit(u32),
    GetSourceLocationForDebugLocation(DebugLocation),
    GetCallStack,
    IsBreakpointSet(DebugLocation),
    IsValidDebugLocation(DebugLocation),
    AddBreakpoint(DebugLocation),
    DeleteBreakpoint(DebugLocation),
    GetWitnessMap,
    IsExecutingBrillig,
    GetBrilligMemory,
    WriteBrilligMemory(usize, FieldElement, BitSize),
    OverwriteWitness(u32, FieldElement),
    GetVariables,
    IsSolved,
    Restart,
    Finalize,
    FindOpcodeAtCurrentFileLine(i64),
    StepAcirOpcode,
    StepIntoOpcode,
    NextInto,
    NextOver,
    NextOut,
    Cont,
}

/// A result from the engine.
#[derive(Debug, PartialEq, Eq)]
pub enum DebugCommandAPIResult {
    DebugCommandResult(DebugCommandResult),
    DebugLocation(Option<DebugLocation>),
    /// The opcodes, each as text.
    Opcodes(Vec<String>),
    Locations(Vec<Location>),
    DebugLocations(Vec<DebugLocation>),
    Bool(bool),
    /// The witnesses with their values.
    WitnessMap(Vec<(u32, FieldElement)>),
    MemoryValue(Option<Vec<MemoryValue>>),
    Unit,
    Variables(Vec<DebugStackFrame>),
    /// A witness map for each circuit that was solved, by circuit id.
    WitnessStack(Vec<(u32, Vec<(u32, FieldElement)>)>),
    Field(Option<FieldElement>),
}

/// The kinds of result.
#[derive(Clone, Copy, Debug, PartialEq, Eq, Structural)]
pub enum ResultKind {
    DebugCommandResult,
    DebugLocation,
    Opcodes,
    Locations,
    DebugLocations,
    Bool,
    WitnessMap,
    MemoryValue,
    Unit,
    Variables,
    WitnessStack,
    Field,
}

/// The kind of result that answers a command.
pub open spec fn spec_expected_kind(command: DebugCommandAPI) -> ResultKind {
    match command {
        DebugCommandAPI::GetCurrentDebugLocation => ResultKind::DebugLocation,
        DebugCommandAPI::GetOpcodes => ResultKind::Opcodes,
        DebugCommandAPI::GetOpcodesOfCircuit(_) => ResultKind::Opcodes,
        DebugCommandAPI::GetSourceLocationForDebugLocation(_) => ResultKind::Locations,
        DebugCommandAPI::GetCallStack => ResultKind::DebugLocations,
        DebugCommandAPI::IsBreakpointSet(_) => ResultKind::Bool,
        DebugCommandAPI::IsValidDebugLocation(_) => ResultKind::Bool,
        DebugCommandAPI::AddBreakpoint(_) => ResultKind::Bool,
        DebugCommandAPI::DeleteBreakpoint(_) => ResultKind::Bool,
        DebugCommandAPI::GetWitnessMap => ResultKind::WitnessMap,
        DebugCommandAPI::IsExecutingBrillig => ResultKind::Bool,
        DebugCommandAPI::GetBrilligMemory => ResultKind::MemoryValue,
        DebugCommandAPI::WriteBrilligMemory(_, _, _) => ResultKind::Unit,
        DebugCommandAPI::OverwriteWitness(_, _) => ResultKind::Field,
        DebugCommandAPI::GetVariables => ResultKind::Variables,
        DebugCommandAPI::IsSolved => ResultKind::Bool,
        DebugCommandAPI::Restart => ResultKind::Unit,
        DebugCommandAPI::Finalize => ResultKind::WitnessStack,
        DebugCommandAPI::FindOpcodeAtCurrentFileLine(_) => ResultKind::DebugLocation,
        DebugCommandAPI::StepAcirOpcode
        | DebugCommandAPI::StepIntoOpcode
        | DebugCommandAPI::NextInto
        | DebugCommandAPI::NextOver
        | DebugCommandAPI::NextOut
        | DebugCommandAPI::Cont => ResultKind::DebugCommandResult,
    }
}

/// The kind of a result.
pub open spec fn spec_kind_of(result: DebugCommandAPIResult) -> ResultKind {
    match result {
        DebugCommandAPIResult::DebugCommandResult(_) => ResultKind::DebugCommandResult,
        DebugCommandAPIResult::DebugLocation(_) => ResultKind::DebugLocation,
        DebugCommandAPIResult::Opcodes(_) => ResultKind::Opcodes,
        DebugCommandAPIResult::Locations(_) => ResultKind::Locations,
        DebugCommandAPIResult::DebugLocations(_) => ResultKind::DebugLocations,
        DebugCommandAPIResult::Bool(_) => ResultKind::Bool,
        DebugCommandAPIResult::WitnessMap(_) => ResultKind::WitnessMap,
        DebugCommandAPIResult::MemoryValue(_) => ResultKind::MemoryValue,
        DebugCommandAPIResult::Unit => ResultKind::Unit,
        DebugCommandAPIResult::Variables(_) => ResultKind::Variables,
        DebugCommandAPIResult::WitnessStack(_) => ResultKind::WitnessStack,
        DebugCommandAPIResult::Field(_) => ResultKind::Field,
    }
}

/// The stepping command that a command is, if it is one.
pub open spec fn spec_step_command(command: DebugCommandAPI) -> Option<StepCommand> {
    match command {
        DebugCommandAPI::StepAcirOpcode => Some(StepCommand::StepAcirOpcode),
        DebugCommandAPI::StepIntoOpcode => Some(StepCommand::StepIntoOpcode),
        DebugCommandAPI::NextInto => Some(StepCommand::NextInto),
        DebugCommandAPI::NextOver => Some(StepCommand::NextOver),
        DebugCommandAPI::NextOut => Some(StepCommand::NextOut),
        DebugCommandAPI::Cont => Some(StepCommand::Cont),
        _ => None,
    }
}

impl DebugCommandAPI {
    /// The kind of result that answers the command.
    pub fn expected_kind(&self) -> (kind: ResultKind)
        ensures
            kind == spec_expected_kind(*self),
    {
        match self {
            DebugCommandAPI::GetCurrentDebugLocation => ResultKind::DebugLocation,
            DebugCommandAPI::GetOpcodes => ResultKind::Opcodes,
            DebugCommandAPI::GetOpcodesOfCircuit(_) => ResultKind::Opcodes,
            DebugCommandAPI::GetSourceLocationForDebugLocation(_) => ResultKind::Locations,
            DebugCommandAPI::GetCallStack => ResultKind::DebugLocations,
            DebugCommandAPI::IsBreakpointSet(_) => ResultKind::Bool,
            DebugCommandAPI::IsValidDebugLocation(_) => ResultKind::Bool,
            DebugCommandAPI::AddBreakpoint(_) => ResultKind::Bool,
            DebugCommandAPI::DeleteBreakpoint(_) => ResultKind::Bool,
            DebugCommandAPI::GetWitnessMap => ResultKind::WitnessMap,
            DebugCommandAPI::IsExecutingBrillig => ResultKind::Bool,
            DebugCommandAPI::GetBrilligMemory => ResultKind::MemoryValue,
            DebugCommandAPI::WriteBrilligMemory(_, _, _) => ResultKind::Unit,
            DebugCommandAPI::OverwriteWitness(_, _) => ResultKind::Field,
            DebugCommandAPI::GetVariables => ResultKind::Variables,
            DebugCommandAPI::IsSolved => ResultKind::Bool,
            DebugCommandAPI::Restart => ResultKind::Unit,
            DebugCommandAPI::Finalize => ResultKind::WitnessStack,
            DebugCommandAPI::FindOpcodeAtCurrentFileLine(_) => ResultKind::DebugLocation,
            DebugCommandAPI::StepAcirOpcode
            | DebugCommandAPI::StepIntoOpcode
            | DebugCommandAPI::NextInto
            | DebugCommandAPI::NextOver
            | DebugCommandAPI::NextOut
            | DebugCommandAPI::Cont => ResultKind::DebugCommandResult,
        }
    }

    /// The stepping command that the command is, if it is one.
    pub fn step_command(&self) -> (step: Option<StepCommand>)
        ensures
            step == spec_step_command(*self),
    {
        match self {
            DebugCommandAPI::StepAcirOpcode => Some(StepCommand::StepAcirOpcode),
            DebugCommandAPI::StepIntoOpcode => Some(StepCommand::StepIntoOpcode),
            DebugCommandAPI::NextInto => Some(StepCommand::NextInto),
            DebugCommandAPI::NextOver => Some(StepCommand::NextOver),
            DebugCommandAPI::NextOut => Some(StepCommand::NextOut),
            DebugCommandAPI::Cont => Some(StepCommand::Cont),
            _ => None,
        }
    }
}

impl DebugCommandAPIResult {
    /// The kind of the result.
    pub fn kind(&self) -> (kind: ResultKind)
        ensures
            kind == spec_kind_of(*self),
    {
        match self {
            DebugCommandAPIResult::DebugCommandResult(_) => ResultKind::DebugCommandResult,
            DebugCommandAPIResult::DebugLocation(_) => ResultKind::DebugLocation,
            DebugCommandAPIResult::Opcodes(_) => ResultKind::Opcodes,
            DebugCommandAPIResult::Locations(_) => ResultKind::Locations,
            DebugCommandAPIResult::DebugLocations(_) => ResultKind::DebugLocations,
            DebugCommandAPIResult::Bool(_) => ResultKind::Bool,
            DebugCommandAPIResult::WitnessMap(_) => ResultKind::WitnessMap,
            DebugCommandAPIResult::MemoryValue(_) => ResultKind::MemoryValue,
            DebugCommandAPIResult::Unit => ResultKind::Unit,
            DebugCommandAPIResult::Variables(_) => ResultKind::Variables,
            DebugCommandAPIResult::WitnessStack(_) => ResultKind::WitnessStack,
            DebugCommandAPIResult::Field(_) => ResultKind::Field,
        }
    }

    /// Whether the result is of the kind that answers `command`. A front-end
    /// that gets any other result has met a violation of the protocol.
    pub fn answers(&self, command: &DebugCommandAPI) -> (fits: bool)
        ensures
            fits == (spec_kind_of(*self) == spec_expected_kind(*command)),
    {
        self.kind() == command.expected_kind()
    }
}

/// What is asked of the side that holds the solver.
#[derive(Clone, Copy, Debug, PartialEq, Eq, Structural)]
pub enum SolverQuery {
    /// The opcodes of a circuit, as text.
    Opcodes(u32),
    /// The witness map of the current circuit.
    WitnessMap,
    /// The memory of the bytecode machine.
    BrilligMemory,
    /// Write a cell of that memory.
    WriteBrilligMemory(usize, FieldElement, BitSize),
    /// Replace the value of a witness, and hand back the old value.
    OverwriteWitness(u32, FieldElement),
    /// Build the solver anew from the program and the first witness.
    Restart,
    /// Hand out the witness stack. No command follows.
    Finalize,
}

/// What the engine does with a command.
#[derive(Debug, PartialEq, Eq)]
pub enum Reply {
    /// The result, which the engine had by itself.
    Answer(DebugCommandAPIResult),
    /// A stepping command has begun: the first decision of the engine.
    Step(Decision),
    /// The result is with the solver.
    Ask(SolverQuery),
}

/// The model of a [`Reply`], as far as the engine decides it: the lists of
/// an answer are given by the engine's own functions.
pub enum ReplyView {
    Location(Option<DebugLocation>),
    Locations(Option<Seq<Location>>),
    CallStack(Seq<DebugLocation>),
    Bool(bool),
    Unit,
    Variables,
    Step(DecisionView),
    Ask(SolverQuery),
}

/// What the engine does with a command, and the state of the engine after it.
pub open spec fn spec_reply(context: &DebugContext, command: DebugCommandAPI) -> (
    ContextView,
    ReplyView,
) {
    let shape = context.shape@;
    let m = context@;
    match command {
        DebugCommandAPI::GetCurrentDebugLocation => (
            m,
            ReplyView::Location(current_location(shape, m)),
        ),
        DebugCommandAPI::GetOpcodes => (m, ReplyView::Ask(SolverQuery::Opcodes(m.current_circuit_id))),
        DebugCommandAPI::GetOpcodesOfCircuit(id) => (m, ReplyView::Ask(SolverQuery::Opcodes(id))),
        DebugCommandAPI::GetSourceLocationForDebugLocation(l) => (
            m,
            ReplyView::Locations(context.artifact.spec_source_locations(l)),
        ),
        DebugCommandAPI::GetCallStack => (m, ReplyView::CallStack(call_stack(shape, m))),
        DebugCommandAPI::IsBreakpointSet(l) => (m, ReplyView::Bool(m.breakpoints.contains(l))),
        DebugCommandAPI::IsValidDebugLocation(l) => (
            m,
            ReplyView::Bool(spec_is_valid_location(shape, l)),
        ),
        DebugCommandAPI::AddBreakpoint(l) => {
            let added = spec_is_valid_location(shape, l) && !m.breakpoints.contains(l);
            (
                ContextView {
                    breakpoints: if added {
                        m.breakpoints.push(l)
                    } else {
                        m.breakpoints
                    },
                    ..m
                },
                ReplyView::Bool(added),
            )
        },
        DebugCommandAPI::DeleteBreakpoint(l) => (
            ContextView { breakpoints: m.breakpoints.filter(|b: DebugLocation| b != l), ..m },
            ReplyView::Bool(m.breakpoints.contains(l)),
        ),
        DebugCommandAPI::GetWitnessMap => (m, ReplyView::Ask(SolverQuery::WitnessMap)),
        DebugCommandAPI::IsExecutingBrillig => (m, ReplyView::Bool(m.position.brillig is Some)),
        DebugCommandAPI::GetBrilligMemory => (m, ReplyView::Ask(SolverQuery::BrilligMemory)),
        DebugCommandAPI::WriteBrilligMemory(ptr, value, bit_size) => if m.position.brillig is Some {
            (m, ReplyView::Ask(SolverQuery::WriteBrilligMemory(ptr, value, bit_size)))
        } else {
            (m, ReplyView::Unit)
        },
        DebugCommandAPI::OverwriteWitness(witness, value) => (
            m,
            ReplyView::Ask(SolverQuery::OverwriteWitness(witness, value)),
        ),
        DebugCommandAPI::GetVariables => (m, ReplyView::Variables),
        DebugCommandAPI::IsSolved => (m, ReplyView::Bool(m.solved)),
        DebugCommandAPI::Restart => (
            initial_state(m.breakpoints),
            ReplyView::Ask(SolverQuery::Restart),
        ),
        DebugCommandAPI::Finalize => (m, ReplyView::Ask(SolverQuery::Finalize)),
        DebugCommandAPI::FindOpcodeAtCurrentFileLine(line) => (
            m,
            ReplyView::Location(spec_find_opcode_at_line(shape, &context.artifact, m, line)),
        ),
        _ => {
            let (after, decision) = spec_begin(
                shape,
                &context.artifact,
                m,
                spec_step_command(command).unwrap(),
            );
            (after, ReplyView::Step(decision))
        },
    }
}

/// Whether a reply is the one that the model names. The variables of a
/// `Variables` answer are those that the store shows, none where a frame of
/// the store is of no registered function.
pub open spec fn reply_is(reply: Reply, model: ReplyView, store: &DebugVars) -> bool {
    match (reply, model) {
        (Reply::Answer(DebugCommandAPIResult::DebugLocation(l)), ReplyView::Location(expected)) => {
            l == expected
        },
        (Reply::Answer(DebugCommandAPIResult::Locations(v)), ReplyView::Locations(expected)) => {
            v@ == match expected {
                Some(places) => places,
                None => Seq::empty(),
            }
        },
        (Reply::Answer(DebugCommandAPIResult::DebugLocations(v)), ReplyView::CallStack(expected)) => {
            v@ == expected
        },
        (Reply::Answer(DebugCommandAPIResult::Bool(b)), ReplyView::Bool(expected)) => b == expected,
        (Reply::Answer(DebugCommandAPIResult::Unit), ReplyView::Unit) => true,
        (Reply::Answer(DebugCommandAPIResult::Variables(frames)), ReplyView::Variables) => {
            if store.frames_are_calls() {
                frames.len() == store.frames().len() && forall|i: int|
                    0 <= i < frames.len() ==> store.shows_frame(#[trigger] frames[i], i)
            } else {
                frames.len() == 0
            }
        },
        (Reply::Step(d), ReplyView::Step(expected)) => d@ == expected,
        (Reply::Ask(q), ReplyView::Ask(expected)) => q == expected,
        _ => false,
    }
}

/// Takes a command: answers it where the engine can by itself, begins it
/// where it is a stepping command, and names what to ask of the solver where
/// the result is there.
pub fn reply(context: &mut DebugContext, store: &DebugVars, command: DebugCommandAPI) -> (out: Reply)
    ensures
        final(context)@ == spec_reply(old(context), command).0,
        reply_is(out, spec_reply(old(context), command).1, store),
        final(context).shape == old(context).shape,
        final(context).artifact == old(context).artifact,
        final(context).assert_messages == old(context).assert_messages,
{
    match command {
        DebugCommandAPI::GetCurrentDebugLocation => Reply::Answer(
            DebugCommandAPIResult::DebugLocation(context.get_current_debug_location()),
        ),
        DebugCommandAPI::GetOpcodes => Reply::Ask(SolverQuery::Opcodes(context.current_circuit_id)),
        DebugCommandAPI::GetOpcodesOfCircuit(id) => Reply::Ask(SolverQuery::Opcodes(id)),
        DebugCommandAPI::GetSourceLocationForDebugLocation(l) => {
            let places = match context.artifact.source_locations(&l) {
                Some(found) => slice_to_vec(found.as_slice()),
                None => Vec::new(),
            };
            Reply::Answer(DebugCommandAPIResult::Locations(places))
        },
        DebugCommandAPI::GetCallStack => Reply::Answer(
            DebugCommandAPIResult::DebugLocations(context.get_call_stack()),
        ),
        DebugCommandAPI::IsBreakpointSet(l) => Reply::Answer(
            DebugCommandAPIResult::Bool(context.is_breakpoint_set(&l)),
        ),
        DebugCommandAPI::IsValidDebugLocation(l) => Reply::Answer(
            DebugCommandAPIResult::Bool(context.is_valid_debug_location(&l)),
        ),
        DebugCommandAPI::AddBreakpoint(l) => Reply::Answer(
            DebugCommandAPIResult::Bool(context.add_breakpoint(l)),
        ),
        DebugCommandAPI::DeleteBreakpoint(l) => Reply::Answer(
            DebugCommandAPIResult::Bool(context.delete_breakpoint(&l)),
        ),
        DebugCommandAPI::GetWitnessMap => Reply::Ask(SolverQuery::WitnessMap),
        DebugCommandAPI::IsExecutingBrillig => Reply::Answer(
            DebugCommandAPIResult::Bool(context.is_executing_brillig()),
        ),
        DebugCommandAPI::GetBrilligMemory => Reply::Ask(SolverQuery::BrilligMemory),
        DebugCommandAPI::WriteBrilligMemory(ptr, value, bit_size) => {
            if context.is_executing_brillig() {
                Reply::Ask(SolverQuery::WriteBrilligMemory(ptr, value, bit_size))
            } else {
                Reply::Answer(DebugCommandAPIResult::Unit)
            }
        },
        DebugCommandAPI::OverwriteWitness(witness, value) => Reply::Ask(
            SolverQuery::OverwriteWitness(witness, value),
        ),
        DebugCommandAPI::GetVariables => {
            let frames = match store.try_get_variables() {
                Some(frames) => frames,
                None => Vec::new(),
            };
            Reply::Answer(DebugCommandAPIResult::Variables(frames))
        },
        DebugCommandAPI::IsSolved => Reply::Answer(DebugCommandAPIResult::Bool(context.is_solved())),
        DebugCommandAPI::Restart => {
            context.restart();
            Reply::Ask(SolverQuery::Restart)
        },
        DebugCommandAPI::Finalize => Reply::Ask(SolverQuery::Finalize),
        DebugCommandAPI::FindOpcodeAtCurrentFileLine(line) => Reply::Answer(
            DebugCommandAPIResult::DebugLocation(context.find_opcode_at_current_file_line(line)),
        ),
        DebugCommandAPI::StepAcirOpcode => Reply::Step(context.begin(StepCommand::StepAcirOpcode)),
        DebugCommandAPI::StepIntoOpcode => Reply::Step(context.begin(StepCommand::StepIntoOpcode)),
        DebugCommandAPI::NextInto => Reply::Step(context.begin(StepCommand::NextInto)),
        DebugCommandAPI::NextOver => Reply::Step(context.begin(StepCommand::NextOver)),
        DebugCommandAPI::NextOut => Reply::Step(context.begin(StepCommand::NextOut)),
        DebugCommandAPI::Cont => Reply::Step(context.begin(StepCommand::Cont)),
    }
}

/// Every answer of the engine is of the kind that answers the command.
pub proof fn lemma_answer_kind(reply: Reply, context: &DebugContext, store: &DebugVars, command:
    DebugCommandAPI)
    requires
        reply_is(reply, spec_reply(context, command).1, store),
    ensures
        reply matches Reply::Answer(result) ==> spec_kind_of(result) == spec_expected_kind(command),
        reply is Step <==> spec_step_command(command) is Some,
{
}

/// The watch before the engine: it lets commands through until the command
/// that ends the session has passed.
#[derive(Debug)]
pub struct SessionWatch {
    finished: bool,
}

impl SessionWatch {
    /// Whether the command that ends the session has passed.
    pub closed spec fn is_finished(&self) -> bool {
        self.finished
    }

    /// A watch at the start of a session.
    pub fn new() -> (watch: SessionWatch)
        ensures
            !watch.is_finished(),
    {
        SessionWatch { finished: false }
    }

    /// Whether `command` is let through. After `Finalize` no command is.
    pub fn accept(&mut self, command: &DebugCommandAPI) -> (accepted: bool)
        ensures
            accepted == !old(self).is_finished(),
            final(self).is_finished() == (old(self).is_finished() || *command
                == DebugCommandAPI::Finalize),
    {
        if self.finished {
            return false;
        }
        match command {
            DebugCommandAPI::Finalize => {
                self.finished = true;
            },
            _ => {},
        }
        true
    }
}

} // verus!
