use noir_debugger::debug_vars::DebugStackFrame;
use noir_debugger::engine::{
    DebugCommandResult, DebugContext, ExecutionError, SolverReport, SolverSnapshot, StepCommand,
};
use noir_debugger::field::FieldElement;
use noir_debugger::location::{DebugLocation, OpcodeLocation};
use noir_debugger::printable::PrintableType;
use noir_debugger::program::{DebugArtifact, DebugFile, DebugInfo, Location, OpcodeKind, ProgramShape, Span};
use noir_debugger::protocol::{BitSize, DebugCommandAPI, IntegerBitSize, MemoryValue};
use noir_debugger::repl::{
    parse_command, split_words, witness_text, BrilligListing, DebugExecutionResult, OpcodeListing, ReplCommand,
    ReplDebugger, ReplParseError,
};
use noir_debugger::value::PrintableValue;

fn acir(index: usize) -> DebugLocation {
    DebugLocation {
        circuit_id: 0,
        opcode_location: OpcodeLocation::Acir(index),
        brillig_function_id: None,
    }
}

fn engine() -> DebugContext {
    let shape = ProgramShape {
        circuits: vec![vec![OpcodeKind::Other, OpcodeKind::BrilligCall { id: 0 }, OpcodeKind::Other]],
        brillig_lengths: vec![2],
    };
    let artifact = DebugArtifact {
        debug_symbols: vec![DebugInfo {
            locations: vec![
                (
                    OpcodeLocation::Acir(0),
                    vec![Location { span: Span { start: 0, end: 1 }, file: 1 }],
                ),
                (
                    OpcodeLocation::Acir(2),
                    vec![Location { span: Span { start: 4, end: 5 }, file: 1 }],
                ),
            ],
        }],
        file_map: vec![DebugFile {
            file_id: 1,
            path: "main.nr".to_string(),
            source: "a\nb\nc\n".to_string(),
        }],
    };
    DebugContext::new(shape, artifact, vec![])
}

fn lines(text: &[&str]) -> Vec<String> {
    text.iter().map(|s| s.to_string()).collect()
}

#[test]
fn words_of_a_line() {
    let words = |s: &str| -> Vec<String> {
        split_words(&s.chars().collect()).into_iter().map(|w| w.into_iter().collect()).collect()
    };
    assert_eq!(words("break  0:1 "), lines(&["break", "0:1"]));
    assert_eq!(words("   "), Vec::<String>::new());
    assert_eq!(words(""), Vec::<String>::new());
    assert_eq!(words("a"), lines(&["a"]));
}

#[test]
fn commands_without_arguments() {
    assert_eq!(parse_command("step"), Ok(ReplCommand::StepAcirOpcode));
    assert_eq!(parse_command("into"), Ok(ReplCommand::StepIntoOpcode));
    assert_eq!(parse_command("next"), Ok(ReplCommand::NextInto));
    assert_eq!(parse_command("over"), Ok(ReplCommand::NextOver));
    assert_eq!(parse_command("out"), Ok(ReplCommand::NextOut));
    assert_eq!(parse_command(" continue "), Ok(ReplCommand::Cont));
    assert_eq!(parse_command("restart"), Ok(ReplCommand::Restart));
    assert_eq!(parse_command("opcodes"), Ok(ReplCommand::Opcodes));
    assert_eq!(parse_command("memory"), Ok(ReplCommand::Memory));
    assert_eq!(parse_command("stacktrace"), Ok(ReplCommand::StackTrace));
    assert_eq!(parse_command("vars"), Ok(ReplCommand::Vars));
    assert_eq!(parse_command("witness"), Ok(ReplCommand::WitnessMap));
}

#[test]
fn commands_with_arguments() {
    assert_eq!(parse_command("break 12"), Ok(ReplCommand::BreakAtLine(12)));
    assert_eq!(parse_command("break -3"), Ok(ReplCommand::BreakAtLine(-3)));
    assert_eq!(
        parse_command("break -9223372036854775808"),
        Ok(ReplCommand::BreakAtLine(i64::MIN))
    );
    assert_eq!(parse_command("break 0:2"), Ok(ReplCommand::BreakAt(acir(2))));
    assert_eq!(
        parse_command("delete 1:2.3"),
        Ok(ReplCommand::Delete(DebugLocation {
            circuit_id: 1,
            opcode_location: OpcodeLocation::Brillig { acir_index: 2, brillig_index: 3 },
            brillig_function_id: None,
        }))
    );
    assert_eq!(parse_command("witness 7"), Ok(ReplCommand::Witness(7)));
    assert_eq!(parse_command("witness 7 42"), Ok(ReplCommand::WitnessUpdate(7, "42".to_string())));
    assert_eq!(
        parse_command("memset 3 0x10 8"),
        Ok(ReplCommand::MemorySet(3, "0x10".to_string(), 8))
    );
}

#[test]
fn lines_that_are_no_commands() {
    assert_eq!(parse_command(""), Err(ReplParseError::Empty));
    assert_eq!(parse_command("   "), Err(ReplParseError::Empty));
    assert_eq!(parse_command("jump"), Err(ReplParseError::UnknownCommand));
    assert_eq!(parse_command("Step"), Err(ReplParseError::UnknownCommand));
    assert_eq!(parse_command("step 1"), Err(ReplParseError::WrongArguments));
    assert_eq!(parse_command("break"), Err(ReplParseError::WrongArguments));
    assert_eq!(parse_command("break x"), Err(ReplParseError::WrongArguments));
    assert_eq!(parse_command("break 1 2"), Err(ReplParseError::WrongArguments));
    assert_eq!(parse_command("break 9223372036854775808"), Err(ReplParseError::WrongArguments));
    assert_eq!(parse_command("delete 12"), Err(ReplParseError::WrongArguments));
    assert_eq!(parse_command("witness x"), Err(ReplParseError::WrongArguments));
    assert_eq!(parse_command("witness 4294967296"), Err(ReplParseError::WrongArguments));
    assert_eq!(parse_command("witness 1 2 3"), Err(ReplParseError::WrongArguments));
    assert_eq!(parse_command("memset 1 2"), Err(ReplParseError::WrongArguments));
    assert_eq!(parse_command("memset a 2 8"), Err(ReplParseError::WrongArguments));
    assert_eq!(parse_command("memset 1 2 x"), Err(ReplParseError::WrongArguments));
}

#[test]
fn stepping_until_the_end_then_refusing() {
    let mut repl = ReplDebugger::new(false);
    assert!(!repl.raw_source_printing());
    assert_eq!(repl.step_acir_opcode(), (Some(DebugCommandAPI::StepAcirOpcode), vec![]));
    assert_eq!(repl.step_into_opcode(), (Some(DebugCommandAPI::StepIntoOpcode), vec![]));
    assert_eq!(repl.next(), (Some(DebugCommandAPI::NextInto), vec![]));
    assert_eq!(repl.next_into(), (Some(DebugCommandAPI::NextInto), vec![]));
    assert_eq!(repl.next_over(), (Some(DebugCommandAPI::NextOver), vec![]));
    assert_eq!(repl.next_out(), (Some(DebugCommandAPI::NextOut), vec![]));
    assert_eq!(
        repl.cont(),
        (Some(DebugCommandAPI::Cont), lines(&["(Continuing execution...)"]))
    );
    assert_eq!(
        repl.handle_debug_command_result(DebugCommandResult::BreakpointReached(acir(2))),
        lines(&["Stopped at breakpoint in opcode 0:2"])
    );
    assert_eq!(repl.validate_in_progress(), (true, vec![]));
    assert_eq!(repl.handle_debug_command_result(DebugCommandResult::Okay), Vec::<String>::new());
    assert_eq!(repl.handle_debug_command_result(DebugCommandResult::Done), Vec::<String>::new());
    assert_eq!(repl.validate_in_progress(), (false, lines(&["Execution finished"])));
    assert_eq!(repl.step(StepCommand::Cont), (None, lines(&["Execution finished"])));
    assert_eq!(repl.restart_session(), lines(&["Restarted debugging session."]));
    assert_eq!(repl.step_acir_opcode(), (Some(DebugCommandAPI::StepAcirOpcode), vec![]));
}

#[test]
fn errors_are_shown_and_end_the_session() {
    let mut repl = ReplDebugger::new(true);
    assert!(repl.raw_source_printing());
    let error = || ExecutionError::AssertionFailed("no".to_string(), vec![acir(1)]);
    assert_eq!(
        repl.handle_debug_command_result(DebugCommandResult::Error(error())),
        lines(&["ERROR: Failed assertion: 'no'"])
    );
    assert_eq!(repl.next(), (None, lines(&["ERROR: Failed assertion: 'no'"])));
    assert_eq!(repl.finish(false), DebugExecutionResult::Error(error()));
    assert_eq!(
        ExecutionError::SolvingError("x".to_string()).to_text(),
        "Failed to solve program: 'x'"
    );
    assert_eq!(
        ExecutionError::BrilligFailed("y".to_string(), vec![]).to_text(),
        "Failed to solve brillig function: 'y'"
    );
    assert_eq!(ReplDebugger::new(false).finish(true), DebugExecutionResult::Solved);
    assert_eq!(ReplDebugger::new(false).finish(false), DebugExecutionResult::Incomplete);
}

#[test]
fn breakpoints_from_the_terminal() {
    let repl = ReplDebugger::new(false);
    let mut context = engine();
    assert_eq!(repl.add_breakpoint_at(&mut context, acir(9)), lines(&["Invalid location 0:9"]));
    assert_eq!(repl.add_breakpoint_at(&mut context, acir(2)), lines(&["Added breakpoint at 0:2"]));
    assert_eq!(
        repl.add_breakpoint_at(&mut context, acir(2)),
        lines(&["Breakpoint at 0:2 already set"])
    );
    assert_eq!(repl.delete_breakpoint_at(&mut context, acir(2)), lines(&["Breakpoint at 0:2 deleted"]));
    assert_eq!(repl.delete_breakpoint_at(&mut context, acir(2)), lines(&["Breakpoint at 0:2 not set"]));
    assert_eq!(
        repl.add_breakpoint_at_line(&mut context, 2),
        lines(&["Added breakpoint at line 2", "Added breakpoint at 0:2"])
    );
    assert_eq!(repl.add_breakpoint_at_line(&mut context, 4), lines(&["No opcode at line 4"]));
    assert_eq!(repl.add_breakpoint_at_line(&mut context, -1), lines(&["No opcode at line -1"]));
    assert_eq!(context.breakpoints, vec![acir(2)]);
}

#[test]
fn witnesses_and_memory() {
    let repl = ReplDebugger::new(false);
    let f = FieldElement::from_u128;
    assert_eq!(
        repl.show_witness_map(&vec![(1, f(1)), (2, f(2))]),
        lines(&["_1 = 1", "_2 = 2"])
    );
    assert_eq!(repl.show_witness(7, Some(f(42))), lines(&["_7 = 42"]));
    assert_eq!(repl.show_witness(7, None), Vec::<String>::new());
    assert_eq!(
        repl.update_witness(7, "42".to_string()),
        (Some(DebugCommandAPI::OverwriteWitness(7, f(42))), lines(&["_7 = 42"]))
    );
    assert_eq!(
        repl.update_witness(7, "x y".to_string()),
        (None, lines(&["Invalid witness value: x y"]))
    );
    assert_eq!(
        repl.show_brillig_memory(false, None),
        lines(&["Not executing a Brillig block"])
    );
    assert_eq!(
        repl.show_brillig_memory(true, None),
        lines(&["Brillig VM memory not available"])
    );
    let memory = vec![
        MemoryValue::Field(f(0)),
        MemoryValue::Field(f(3)),
        MemoryValue::Integer(0, IntegerBitSize::U8),
        MemoryValue::Integer(77, IntegerBitSize::U32),
    ];
    assert_eq!(
        repl.show_brillig_memory(true, Some(&memory)),
        lines(&["1 = 3", "2 = 0", "3 = 77"])
    );
    assert_eq!(
        repl.write_brillig_memory(3, "5".to_string(), 8, true),
        (
            Some(DebugCommandAPI::WriteBrilligMemory(3, f(5), BitSize::Integer(IntegerBitSize::U8))),
            vec![]
        )
    );
    assert_eq!(
        repl.write_brillig_memory(3, "five".to_string(), 8, true),
        (None, lines(&["Invalid value: five"]))
    );
    assert_eq!(
        repl.write_brillig_memory_given(3, "v".to_string(), None, 9, false),
        (None, lines(&["Invalid value: v"]))
    );
    assert_eq!(
        repl.write_brillig_memory_given(3, "v".to_string(), Some(f(1)), 9, false),
        (None, lines(&["Invalid bit size: 9"]))
    );
    assert_eq!(
        repl.write_brillig_memory_given(3, "v".to_string(), Some(f(1)), 254, true),
        (Some(DebugCommandAPI::WriteBrilligMemory(3, f(1), BitSize::Field)), vec![])
    );
    assert_eq!(
        repl.update_witness_given(2, "text".to_string(), Some(f(9))),
        (Some(DebugCommandAPI::OverwriteWitness(2, f(9))), lines(&["_2 = text"]))
    );
    assert_eq!(
        repl.update_witness_given(2, "text".to_string(), None),
        (None, lines(&["Invalid witness value: text"]))
    );
    assert_eq!(witness_text(12, "0x0c"), "_12 = 0x0c");
    assert_eq!(
        repl.write_brillig_memory(3, "5".to_string(), 9, true),
        (None, lines(&["Invalid bit size: 9"]))
    );
    assert_eq!(
        repl.write_brillig_memory(3, "5".to_string(), 8, false),
        (None, lines(&["Not executing a Brillig block"]))
    );
}

#[test]
fn variables_of_each_frame() {
    let repl = ReplDebugger::new(false);
    let frames = vec![
        DebugStackFrame {
            function_name: "main".to_string(),
            function_params: vec!["x".to_string(), "y".to_string()],
            variables: vec![
                (
                    "x".to_string(),
                    PrintableValue::Field(FieldElement::from_u128(3)),
                    PrintableType::UnsignedInteger { width: 32 },
                ),
                (
                    "y".to_string(),
                    PrintableValue::Vec(vec![
                        PrintableValue::Field(FieldElement::from_u128(1)),
                        PrintableValue::Field(FieldElement::from_u128(0)),
                    ]),
                    PrintableType::Array { length: Some(2), typ: Box::new(PrintableType::Boolean) },
                ),
            ],
        },
        DebugStackFrame { function_name: "leaf".to_string(), function_params: vec![], variables: vec![] },
    ];
    assert_eq!(
        repl.show_vars(&frames),
        lines(&["main(x, y)", "  x:u32 = 3", "  y:[bool; 2] = [true, false]", "leaf()"])
    );
    assert_eq!(repl.show_vars(&vec![]), Vec::<String>::new());
}

#[test]
fn status_and_call_stack() {
    let repl = ReplDebugger::new(false);
    assert_eq!(repl.show_current_vm_status(None, ""), lines(&["Finished execution"]));
    assert_eq!(
        repl.show_current_vm_status(Some(acir(2)), "EXPR [ 0 ]"),
        lines(&["At opcode 0:2 :: EXPR [ 0 ]"])
    );
    assert_eq!(
        repl.show_current_call_stack(&vec![]),
        lines(&["Finished execution. Call stack empty."])
    );
    assert_eq!(
        repl.show_current_call_stack(&vec![
            (acir(1), "CALL".to_string()),
            (acir(0), "EXPR".to_string())
        ]),
        lines(&["Frame #0, opcode 0:1 :: CALL", "Frame #1, opcode 0:0 :: EXPR"])
    );
}

#[test]
fn opcode_list_with_marks() {
    let repl = ReplDebugger::new(false);
    let mut context = engine();
    context.add_breakpoint(acir(2));
    context.add_breakpoint(DebugLocation {
        circuit_id: 0,
        opcode_location: OpcodeLocation::Brillig { acir_index: 1, brillig_index: 1 },
        brillig_function_id: Some(0),
    });
    let opcodes = vec![
        OpcodeListing { text: "EXPR a".to_string(), brillig_call: None },
        OpcodeListing {
            text: "BRILLIG".to_string(),
            brillig_call: Some(BrilligListing {
                id: 0,
                inputs: "[x]".to_string(),
                outputs: "[y]".to_string(),
                bytecode: vec!["Const".to_string(), "Stop".to_string()],
            }),
        },
        OpcodeListing { text: "EXPR b".to_string(), brillig_call: None },
    ];
    let expected = lines(&[
        " 0:  0 -> EXPR a",
        " 0:  1    BRILLIG CALL id=0 inputs=[x]",
        "          |       outputs=[y]",
        " 0:  1.0  |   Const",
        " 0:  1.1  | * Stop",
        " 0:  2  * EXPR b",
    ]);
    assert_eq!(repl.display_opcodes_of_circuit(&context, 0, &opcodes), expected);
    assert_eq!(repl.display_opcodes(&context, &vec![]), Vec::<String>::new());
    // inside the bytecode the arrow is at the call and at the bytecode opcode
    context.begin(StepCommand::StepIntoOpcode);
    context.on_report(SolverReport::InProgress, SolverSnapshot { acir_index: 1, brillig: None });
    context.begin(StepCommand::StepIntoOpcode);
    context.on_report(
        SolverReport::EnteredBrillig,
        SolverSnapshot {
            acir_index: 1,
            brillig: Some(noir_debugger::engine::BrilligPosition {
                function_id: 0,
                program_counter: 0,
                call_stack: vec![0],
            }),
        },
    );
    let expected = lines(&[
        " 0:  0    EXPR a",
        " 0:  1 -> BRILLIG CALL id=0 inputs=[x]",
        "          |       outputs=[y]",
        " 0:  1.0  |-> Const",
        " 0:  1.1  | * Stop",
        " 0:  2  * EXPR b",
    ]);
    assert_eq!(repl.display_opcodes(&context, &vec![opcodes]), expected);
}
