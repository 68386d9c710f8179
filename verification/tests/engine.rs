use noir_debugger::debug_vars::DebugVars;
use noir_debugger::engine::{
    BrilligPosition, DebugCommandResult, DebugContext, Decision, ExecutionError, SolverAction,
    SolverFailure, SolverReport, SolverSnapshot, StepCommand,
};
use noir_debugger::field::FieldElement;
use noir_debugger::location::{DebugLocation, OpcodeLocation};
use noir_debugger::program::{
    DebugArtifact, DebugFile, DebugInfo, Location, OpcodeKind, ProgramShape, Span,
};
use noir_debugger::protocol::{
    reply, BitSize, DebugCommandAPI, DebugCommandAPIResult, IntegerBitSize, Reply, ResultKind,
    SolverQuery,
};
use std::collections::HashMap;

fn acir(circuit_id: u32, index: usize) -> DebugLocation {
    DebugLocation {
        circuit_id,
        opcode_location: OpcodeLocation::Acir(index),
        brillig_function_id: None,
    }
}

fn brillig(circuit_id: u32, acir_index: usize, brillig_index: usize, function: u32) -> DebugLocation {
    DebugLocation {
        circuit_id,
        opcode_location: OpcodeLocation::Brillig { acir_index, brillig_index },
        brillig_function_id: Some(function),
    }
}

fn at(acir_index: usize) -> SolverSnapshot {
    SolverSnapshot { acir_index, brillig: None }
}

fn inside(acir_index: usize, program_counter: usize) -> SolverSnapshot {
    SolverSnapshot {
        acir_index,
        brillig: Some(BrilligPosition {
            function_id: 0,
            program_counter,
            call_stack: vec![program_counter],
        }),
    }
}

fn place(file: u32, start: u32) -> Location {
    Location { span: Span { start, end: start + 1 }, file }
}

/// One circuit of eight opcodes, the one at index 5 a call of a bytecode
/// function of four opcodes; each opcode on a line of its own in file 1, and
/// a second circuit of two opcodes.
fn context() -> DebugContext {
    let mut opcodes = vec![OpcodeKind::Other; 8];
    opcodes[5] = OpcodeKind::BrilligCall { id: 0 };
    opcodes[7] = OpcodeKind::Call { id: 1 };
    let shape = ProgramShape {
        circuits: vec![opcodes, vec![OpcodeKind::Other, OpcodeKind::Other]],
        brillig_lengths: vec![4],
    };
    let source = "l1\nl2\nl3\nl4\nl5\nl6\nl7\nl8\nl9\n".to_string();
    let mut locations = vec![];
    for i in 0..8usize {
        locations.push((OpcodeLocation::Acir(i), vec![place(1, (i as u32) * 3)]));
    }
    for b in 0..4usize {
        locations.push((
            OpcodeLocation::Brillig { acir_index: 5, brillig_index: b },
            vec![place(1, 15)],
        ));
    }
    let artifact = DebugArtifact {
        debug_symbols: vec![
            DebugInfo { locations },
            DebugInfo { locations: vec![(OpcodeLocation::Acir(0), vec![place(1, 24)])] },
        ],
        file_map: vec![DebugFile { file_id: 1, path: "main.nr".to_string(), source }],
    };
    DebugContext::new(shape, artifact, vec![(acir(0, 3), "no".to_string())])
}

#[test]
fn single_constraint_runs_to_done() {
    // cont on a circuit that is solved in one go
    let mut engine = context();
    assert_eq!(engine.begin(StepCommand::Cont), Decision::Advance(SolverAction::SolveOpcode));
    assert_eq!(
        engine.on_report(SolverReport::Solved, at(8)),
        Decision::Finish(DebugCommandResult::Done)
    );
    assert!(engine.is_solved());
    assert_eq!(engine.get_current_debug_location(), None);
    assert!(engine.get_call_stack().is_empty());
}

#[test]
fn assertion_failure_reports_user_message() {
    // a failing assertion with message "no", then a refused step
    let mut engine = context();
    engine.begin(StepCommand::Cont);
    engine.on_report(SolverReport::InProgress, at(1));
    engine.on_report(SolverReport::InProgress, at(2));
    engine.on_report(SolverReport::InProgress, at(3));
    let decision = engine.on_report(
        SolverReport::Failure(SolverFailure::UnsatisfiedConstraint("unsatisfied".to_string())),
        at(3),
    );
    assert_eq!(
        decision,
        Decision::Finish(DebugCommandResult::Error(ExecutionError::AssertionFailed(
            "no".to_string(),
            vec![acir(0, 3)]
        )))
    );
    assert!(!engine.is_solved());
    assert_eq!(
        engine.begin(StepCommand::StepAcirOpcode),
        Decision::Finish(DebugCommandResult::Done)
    );
}

#[test]
fn constraint_without_message_is_a_solving_error() {
    let mut engine = context();
    engine.begin(StepCommand::StepAcirOpcode);
    let decision = engine.on_report(
        SolverReport::Failure(SolverFailure::UnsatisfiedConstraint("unsatisfied".to_string())),
        at(0),
    );
    assert_eq!(
        decision,
        Decision::Finish(DebugCommandResult::Error(ExecutionError::SolvingError(
            "unsatisfied".to_string()
        )))
    );
}

#[test]
fn brillig_failure_carries_the_call_stack() {
    let mut engine = context();
    engine.begin(StepCommand::Cont);
    engine.on_report(SolverReport::InProgress, at(5));
    engine.on_report(SolverReport::EnteredBrillig, inside(5, 0));
    let decision = engine.on_report(SolverReport::BrilligFailure("trap".to_string()), inside(5, 2));
    assert_eq!(
        decision,
        Decision::Finish(DebugCommandResult::Error(ExecutionError::BrilligFailed(
            "trap".to_string(),
            vec![brillig(0, 5, 2, 0)]
        )))
    );
}

#[test]
fn foreign_call_failure_is_a_solving_error() {
    let mut engine = context();
    engine.begin(StepCommand::StepIntoOpcode);
    assert_eq!(
        engine.on_report(SolverReport::RequiresForeignCall, at(0)),
        Decision::Advance(SolverAction::ResolveForeignCall)
    );
    assert_eq!(
        engine.on_report(SolverReport::ForeignCallFailed("no resolver".to_string()), at(0)),
        Decision::Finish(DebugCommandResult::Error(ExecutionError::SolvingError(
            "no resolver".to_string()
        )))
    );
}

#[test]
fn foreign_call_is_invisible_to_a_step() {
    let mut engine = context();
    assert_eq!(
        engine.begin(StepCommand::StepIntoOpcode),
        Decision::Advance(SolverAction::SolveOpcode)
    );
    assert_eq!(
        engine.on_report(SolverReport::RequiresForeignCall, at(0)),
        Decision::Advance(SolverAction::ResolveForeignCall)
    );
    assert_eq!(
        engine.on_report(SolverReport::ForeignCallResolved, at(0)),
        Decision::Advance(SolverAction::SolveOpcode)
    );
    assert_eq!(
        engine.on_report(SolverReport::InProgress, at(1)),
        Decision::Finish(DebugCommandResult::Okay)
    );
    assert_eq!(engine.get_current_debug_location(), Some(acir(0, 1)));
}

#[test]
fn stepping_through_a_brillig_call() {
    // a bytecode call at circuit opcode 5 with four inner opcodes
    let mut engine = context();
    engine.begin(StepCommand::Cont);
    engine.add_breakpoint(acir(0, 4));
    assert_eq!(
        engine.on_report(SolverReport::InProgress, at(4)),
        Decision::Finish(DebugCommandResult::BreakpointReached(acir(0, 4)))
    );
    // `step` stays at circuit level
    assert_eq!(
        engine.begin(StepCommand::StepAcirOpcode),
        Decision::Advance(SolverAction::SolveOpcode)
    );
    assert_eq!(
        engine.on_report(SolverReport::InProgress, at(5)),
        Decision::Finish(DebugCommandResult::Okay)
    );
    assert_eq!(engine.get_current_debug_location(), Some(acir(0, 5)));
    assert!(!engine.is_executing_brillig());
    // `into` enters the bytecode at its first opcode
    assert_eq!(
        engine.begin(StepCommand::StepIntoOpcode),
        Decision::Advance(SolverAction::StepIntoBrillig)
    );
    assert_eq!(
        engine.on_report(SolverReport::EnteredBrillig, inside(5, 0)),
        Decision::Finish(DebugCommandResult::Okay)
    );
    assert_eq!(engine.get_current_debug_location(), Some(brillig(0, 5, 0, 0)));
    assert!(engine.is_executing_brillig());
    // four more `into` complete the call
    for pc in 1..4usize {
        assert_eq!(
            engine.begin(StepCommand::StepIntoOpcode),
            Decision::Advance(SolverAction::StepBrillig)
        );
        assert_eq!(
            engine.on_report(SolverReport::BrilligInProgress, inside(5, pc)),
            Decision::Finish(DebugCommandResult::Okay)
        );
        assert_eq!(engine.get_current_debug_location(), Some(brillig(0, 5, pc, 0)));
    }
    assert_eq!(
        engine.begin(StepCommand::StepIntoOpcode),
        Decision::Advance(SolverAction::StepBrillig)
    );
    assert_eq!(
        engine.on_report(SolverReport::BrilligFinished, inside(5, 4)),
        Decision::Advance(SolverAction::FinishBrillig)
    );
    assert_eq!(
        engine.on_report(SolverReport::InProgress, at(6)),
        Decision::Finish(DebugCommandResult::Okay)
    );
    assert_eq!(engine.get_current_debug_location(), Some(acir(0, 6)));
}

#[test]
fn step_out_of_brillig_with_a_circuit_step() {
    let mut engine = context();
    engine.begin(StepCommand::StepIntoOpcode);
    engine.on_report(SolverReport::EnteredBrillig, inside(5, 0));
    assert_eq!(
        engine.begin(StepCommand::StepAcirOpcode),
        Decision::Advance(SolverAction::StepBrillig)
    );
    assert_eq!(
        engine.on_report(SolverReport::BrilligInProgress, inside(5, 1)),
        Decision::Advance(SolverAction::StepBrillig)
    );
    assert_eq!(
        engine.on_report(SolverReport::BrilligFinished, inside(5, 4)),
        Decision::Advance(SolverAction::FinishBrillig)
    );
    assert_eq!(
        engine.on_report(SolverReport::InProgress, at(6)),
        Decision::Finish(DebugCommandResult::Okay)
    );
}

#[test]
fn cont_stops_at_each_hit_of_a_breakpoint() {
    // a breakpoint that is passed three times
    let mut engine = context();
    assert!(engine.add_breakpoint(acir(0, 2)));
    for _ in 0..3 {
        assert_eq!(engine.begin(StepCommand::Cont), Decision::Advance(SolverAction::SolveOpcode));
        assert_eq!(
            engine.on_report(SolverReport::InProgress, at(1)),
            Decision::Advance(SolverAction::SolveOpcode)
        );
        assert_eq!(
            engine.on_report(SolverReport::InProgress, at(2)),
            Decision::Finish(DebugCommandResult::BreakpointReached(acir(0, 2)))
        );
    }
}

#[test]
fn breakpoint_at_the_call_matches_the_first_bytecode_opcode() {
    let mut engine = context();
    assert!(engine.add_breakpoint(acir(0, 5)));
    engine.begin(StepCommand::Cont);
    engine.on_report(SolverReport::InProgress, at(4));
    // the solver went into the bytecode without a stop at the call
    assert_eq!(
        engine.on_report(SolverReport::EnteredBrillig, inside(5, 0)),
        Decision::Finish(DebugCommandResult::BreakpointReached(acir(0, 5)))
    );
}

#[test]
fn add_breakpoint_at_unreachable_location() {
    // locations that do not exist, then one that does
    let mut engine = context();
    assert!(!engine.add_breakpoint(acir(0, 8)));
    assert!(!engine.add_breakpoint(acir(2, 0)));
    assert!(!engine.add_breakpoint(brillig(0, 4, 0, 0)));
    assert!(!engine.add_breakpoint(brillig(0, 5, 4, 0)));
    assert!(engine.breakpoints.is_empty());
    assert!(engine.add_breakpoint(brillig(0, 5, 3, 0)));
    assert!(!engine.add_breakpoint(brillig(0, 5, 3, 0)));
    assert_eq!(engine.breakpoints, vec![brillig(0, 5, 3, 0)]);
    assert!(engine.is_breakpoint_set(&brillig(0, 5, 3, 0)));
    assert!(engine.delete_breakpoint(&brillig(0, 5, 3, 0)));
    assert!(!engine.delete_breakpoint(&brillig(0, 5, 3, 0)));
    assert!(engine.breakpoints.is_empty());
}

#[test]
fn next_into_stops_at_the_next_source_line() {
    let mut engine = context();
    engine.begin(StepCommand::StepIntoOpcode);
    engine.on_report(SolverReport::EnteredBrillig, inside(5, 0));
    // all of the bytecode is on the line of the call
    assert_eq!(engine.begin(StepCommand::NextInto), Decision::Advance(SolverAction::StepBrillig));
    assert_eq!(
        engine.on_report(SolverReport::BrilligInProgress, inside(5, 1)),
        Decision::Advance(SolverAction::StepBrillig)
    );
    assert_eq!(
        engine.on_report(SolverReport::BrilligFinished, inside(5, 4)),
        Decision::Advance(SolverAction::FinishBrillig)
    );
    assert_eq!(
        engine.on_report(SolverReport::InProgress, at(6)),
        Decision::Finish(DebugCommandResult::Okay)
    );
}

#[test]
fn next_over_returns_at_entry_depth() {
    let mut engine = context();
    engine.begin(StepCommand::Cont);
    engine.add_breakpoint(acir(0, 7));
    engine.on_report(SolverReport::InProgress, at(7));
    let depth = engine.call_depth();
    assert_eq!(depth, 1);
    assert_eq!(engine.begin(StepCommand::NextOver), Decision::Advance(SolverAction::SolveOpcode));
    assert_eq!(
        engine.on_report(SolverReport::RequiresAcirCall { id: 1 }, at(7)),
        Decision::Advance(SolverAction::EnterCircuit { id: 1 })
    );
    // inside the called circuit the stack is deeper
    assert_eq!(
        engine.on_report(SolverReport::EnteredCircuit, at(0)),
        Decision::Advance(SolverAction::SolveOpcode)
    );
    assert_eq!(engine.call_depth(), 2);
    assert_eq!(engine.get_call_stack(), vec![acir(0, 7), acir(1, 0)]);
    assert_eq!(
        engine.on_report(SolverReport::InProgress, at(1)),
        Decision::Advance(SolverAction::SolveOpcode)
    );
    assert_eq!(
        engine.on_report(SolverReport::Solved, at(2)),
        Decision::Advance(SolverAction::ReturnToCaller)
    );
    // back in the caller, at the end of its opcodes
    assert_eq!(
        engine.on_report(SolverReport::Solved, at(8)),
        Decision::Finish(DebugCommandResult::Done)
    );
    assert!(engine.is_solved());
}

#[test]
fn next_out_returns_below_entry_depth() {
    let mut engine = context();
    engine.begin(StepCommand::Cont);
    engine.add_breakpoint(acir(1, 0));
    engine.on_report(SolverReport::InProgress, at(7));
    engine.on_report(SolverReport::RequiresAcirCall { id: 1 }, at(7));
    assert_eq!(
        engine.on_report(SolverReport::EnteredCircuit, at(0)),
        Decision::Finish(DebugCommandResult::BreakpointReached(acir(1, 0)))
    );
    assert_eq!(engine.call_depth(), 2);
    assert_eq!(engine.begin(StepCommand::NextOut), Decision::Advance(SolverAction::SolveOpcode));
    assert_eq!(
        engine.on_report(SolverReport::InProgress, at(1)),
        Decision::Advance(SolverAction::SolveOpcode)
    );
    assert_eq!(
        engine.on_report(SolverReport::Solved, at(2)),
        Decision::Advance(SolverAction::ReturnToCaller)
    );
    assert_eq!(
        engine.on_report(SolverReport::InProgress, at(6)),
        Decision::Finish(DebugCommandResult::Okay)
    );
    assert_eq!(engine.call_depth(), 1);
}

#[test]
fn restart_keeps_breakpoints_and_replays() {
    let mut engine = context();
    engine.add_breakpoint(acir(0, 2));
    let mut first = vec![];
    first.push(engine.begin(StepCommand::Cont));
    first.push(engine.on_report(SolverReport::InProgress, at(2)));
    first.push(engine.begin(StepCommand::StepAcirOpcode));
    first.push(engine.on_report(SolverReport::Solved, at(8)));
    engine.restart();
    assert_eq!(engine.breakpoints, vec![acir(0, 2)]);
    assert!(!engine.is_solved());
    assert_eq!(engine.get_current_debug_location(), Some(acir(0, 0)));
    let mut second = vec![];
    second.push(engine.begin(StepCommand::Cont));
    second.push(engine.on_report(SolverReport::InProgress, at(2)));
    second.push(engine.begin(StepCommand::StepAcirOpcode));
    second.push(engine.on_report(SolverReport::Solved, at(8)));
    assert_eq!(first, second);
}

#[test]
fn find_opcode_at_line() {
    let engine = context();
    assert_eq!(engine.find_opcode_at_current_file_line(3), Some(acir(0, 2)));
    assert_eq!(engine.find_opcode_at_current_file_line(0), Some(acir(0, 0)));
    // line 6 is that of the call and of its bytecode: the first opcode wins
    assert_eq!(engine.find_opcode_at_current_file_line(6), Some(acir(0, 5)));
    // line 9 has an opcode of the second circuit only
    assert_eq!(engine.find_opcode_at_current_file_line(9), Some(acir(1, 0)));
    assert_eq!(engine.find_opcode_at_current_file_line(10), None);
    assert_eq!(engine.find_opcode_at_current_file_line(-1), None);
}

#[test]
fn source_locations_and_lines() {
    let engine = context();
    assert_eq!(engine.get_current_source_location(), Some(&vec![place(1, 0)]));
    assert_eq!(engine.artifact.source_locations(&acir(0, 4)), Some(&vec![place(1, 12)]));
    assert_eq!(engine.artifact.source_locations(&acir(0, 9)), None);
    assert_eq!(engine.artifact.source_locations(&acir(5, 0)), None);
    assert_eq!(engine.artifact.location_line_number(&place(1, 12)), Some(5));
    assert_eq!(engine.artifact.location_line_number(&place(1, 2)), Some(1));
    assert_eq!(engine.artifact.location_line_number(&place(1, 3)), Some(2));
    assert_eq!(engine.artifact.location_line_number(&place(2, 0)), None);
    assert_eq!(engine.artifact.file(1).map(|f| f.path.as_str()), Some("main.nr"));
    assert!(engine.artifact.file(7).is_none());
}

#[test]
fn protocol_answers() {
    let mut engine = context();
    let store = DebugVars::new(&HashMap::new());
    assert_eq!(
        reply(&mut engine, &store, DebugCommandAPI::GetCurrentDebugLocation),
        Reply::Answer(DebugCommandAPIResult::DebugLocation(Some(acir(0, 0))))
    );
    assert_eq!(
        reply(&mut engine, &store, DebugCommandAPI::AddBreakpoint(acir(0, 9))),
        Reply::Answer(DebugCommandAPIResult::Bool(false))
    );
    assert_eq!(
        reply(&mut engine, &store, DebugCommandAPI::AddBreakpoint(acir(0, 1))),
        Reply::Answer(DebugCommandAPIResult::Bool(true))
    );
    assert_eq!(
        reply(&mut engine, &store, DebugCommandAPI::IsBreakpointSet(acir(0, 1))),
        Reply::Answer(DebugCommandAPIResult::Bool(true))
    );
    assert_eq!(
        reply(&mut engine, &store, DebugCommandAPI::IsValidDebugLocation(brillig(0, 5, 1, 0))),
        Reply::Answer(DebugCommandAPIResult::Bool(true))
    );
    assert_eq!(
        reply(&mut engine, &store, DebugCommandAPI::GetCallStack),
        Reply::Answer(DebugCommandAPIResult::DebugLocations(vec![acir(0, 0)]))
    );
    assert_eq!(
        reply(&mut engine, &store, DebugCommandAPI::GetSourceLocationForDebugLocation(acir(0, 1))),
        Reply::Answer(DebugCommandAPIResult::Locations(vec![place(1, 3)]))
    );
    assert_eq!(
        reply(&mut engine, &store, DebugCommandAPI::FindOpcodeAtCurrentFileLine(2)),
        Reply::Answer(DebugCommandAPIResult::DebugLocation(Some(acir(0, 1))))
    );
    assert_eq!(
        reply(&mut engine, &store, DebugCommandAPI::GetVariables),
        Reply::Answer(DebugCommandAPIResult::Variables(vec![]))
    );
    assert_eq!(
        reply(&mut engine, &store, DebugCommandAPI::IsSolved),
        Reply::Answer(DebugCommandAPIResult::Bool(false))
    );
    assert_eq!(
        reply(&mut engine, &store, DebugCommandAPI::Cont),
        Reply::Step(Decision::Advance(SolverAction::SolveOpcode))
    );
    assert_eq!(
        reply(&mut engine, &store, DebugCommandAPI::DeleteBreakpoint(acir(0, 1))),
        Reply::Answer(DebugCommandAPIResult::Bool(true))
    );
}

#[test]
fn protocol_asks_the_solver() {
    let mut engine = context();
    let store = DebugVars::new(&HashMap::new());
    let value = FieldElement::from_u128(42);
    // the witness is the solver's to overwrite
    assert_eq!(
        reply(&mut engine, &store, DebugCommandAPI::OverwriteWitness(7, value)),
        Reply::Ask(SolverQuery::OverwriteWitness(7, value))
    );
    assert_eq!(
        reply(&mut engine, &store, DebugCommandAPI::GetOpcodes),
        Reply::Ask(SolverQuery::Opcodes(0))
    );
    assert_eq!(
        reply(&mut engine, &store, DebugCommandAPI::GetOpcodesOfCircuit(1)),
        Reply::Ask(SolverQuery::Opcodes(1))
    );
    assert_eq!(reply(&mut engine, &store, DebugCommandAPI::GetWitnessMap), Reply::Ask(SolverQuery::WitnessMap));
    assert_eq!(
        reply(&mut engine, &store, DebugCommandAPI::GetBrilligMemory),
        Reply::Ask(SolverQuery::BrilligMemory)
    );
    assert_eq!(reply(&mut engine, &store, DebugCommandAPI::Finalize), Reply::Ask(SolverQuery::Finalize));
    // no bytecode call is open: the write is dropped
    let write = DebugCommandAPI::WriteBrilligMemory(3, value, BitSize::Integer(IntegerBitSize::U8));
    assert_eq!(reply(&mut engine, &store, write), Reply::Answer(DebugCommandAPIResult::Unit));
    engine.begin(StepCommand::StepIntoOpcode);
    engine.on_report(SolverReport::EnteredBrillig, inside(5, 0));
    assert_eq!(
        reply(&mut engine, &store, write),
        Reply::Ask(SolverQuery::WriteBrilligMemory(3, value, BitSize::Integer(IntegerBitSize::U8)))
    );
    engine.add_breakpoint(acir(0, 1));
    assert_eq!(reply(&mut engine, &store, DebugCommandAPI::Restart), Reply::Ask(SolverQuery::Restart));
    assert_eq!(engine.breakpoints, vec![acir(0, 1)]);
    assert!(!engine.is_executing_brillig());
}

#[test]
fn every_command_has_one_kind_of_result() {
    assert_eq!(DebugCommandAPI::Cont.expected_kind(), ResultKind::DebugCommandResult);
    assert_eq!(DebugCommandAPI::Finalize.expected_kind(), ResultKind::WitnessStack);
    assert_eq!(DebugCommandAPI::Restart.expected_kind(), ResultKind::Unit);
    assert_eq!(DebugCommandAPI::GetBrilligMemory.expected_kind(), ResultKind::MemoryValue);
    assert_eq!(DebugCommandAPI::GetOpcodes.step_command(), None);
    assert_eq!(DebugCommandAPI::NextOver.step_command(), Some(StepCommand::NextOver));
    assert!(DebugCommandAPIResult::Bool(true).answers(&DebugCommandAPI::IsSolved));
    assert!(!DebugCommandAPIResult::Unit.answers(&DebugCommandAPI::IsSolved));
    assert!(DebugCommandAPIResult::Field(None).answers(&DebugCommandAPI::OverwriteWitness(
        1,
        FieldElement::zero()
    )));
}

#[test]
fn bit_sizes() {
    assert_eq!(BitSize::try_from_u32(254), Some(BitSize::Field));
    assert_eq!(BitSize::try_from_u32(1), Some(BitSize::Integer(IntegerBitSize::U1)));
    assert_eq!(BitSize::try_from_u32(8), Some(BitSize::Integer(IntegerBitSize::U8)));
    assert_eq!(BitSize::try_from_u32(16), Some(BitSize::Integer(IntegerBitSize::U16)));
    assert_eq!(BitSize::try_from_u32(32), Some(BitSize::Integer(IntegerBitSize::U32)));
    assert_eq!(BitSize::try_from_u32(64), Some(BitSize::Integer(IntegerBitSize::U64)));
    assert_eq!(BitSize::try_from_u32(128), Some(BitSize::Integer(IntegerBitSize::U128)));
    assert_eq!(BitSize::try_from_u32(7), None);
    assert_eq!(BitSize::try_from_u32(0), None);
}

#[test]
fn next_over_stops_on_the_next_line_at_the_same_depth() {
    let mut engine = context();
    let depth = engine.call_depth();
    assert_eq!(engine.begin(StepCommand::NextOver), Decision::Advance(SolverAction::SolveOpcode));
    assert_eq!(
        engine.on_report(SolverReport::InProgress, at(1)),
        Decision::Finish(DebugCommandResult::Okay)
    );
    assert_eq!(engine.call_depth(), depth);
    assert_eq!(engine.get_current_debug_location(), Some(acir(0, 1)));
}

#[test]
fn returning_from_a_called_circuit() {
    let mut engine = context();
    engine.begin(StepCommand::Cont);
    engine.on_report(SolverReport::RequiresAcirCall { id: 1 }, at(7));
    assert_eq!(engine.current_circuit_id, 1);
    assert_eq!(engine.frames, vec![(0, 7)]);
    engine.on_report(SolverReport::EnteredCircuit, at(0));
    assert_eq!(
        engine.on_report(SolverReport::Solved, at(2)),
        Decision::Advance(SolverAction::ReturnToCaller)
    );
    assert_eq!(engine.current_circuit_id, 0);
    assert!(engine.frames.is_empty());
    assert!(!engine.is_solved());
}
