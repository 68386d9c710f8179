use noir_debugger::dap::{
    compile_options_for_debugging, launch_arguments, on_request, parse_expression_width,
    preflight_project_folder, skips_instrumentation, workspace_not_found_error_msg, Capabilities,
    DapAction, DapRequest, DebugCompileOptions, ExpressionWidth, LaunchArguments, LaunchError,
    LaunchValue,
};
use noir_debugger::engine::ExecutionError;
use noir_debugger::field::FieldElement;
use noir_debugger::format::{
    fill_template, format_field_string, to_string, ForeignCallError, FormatError,
    PrintableValueDisplay,
};
use noir_debugger::print::{
    formatted_display, frame_print_call, plain_display, ForeignCallParam, PrintError, PrintFrame,
};
use noir_debugger::printable::PrintableType;
use noir_debugger::protocol::{SessionWatch, DebugCommandAPI};
use noir_debugger::repl::DebugExecutionResult;
use noir_debugger::symbols::{
    debug_outcome, decode_base64_symbol, decode_base64_symbols, JsDebuggerError,
};
use noir_debugger::test_report::{
    debug_mode_for, debugged_test, DebuggedTest, display_test_report, get_test_function, run_result, Color, FunctionNameMatch,
    Segment, TestStatus,
};
use noir_debugger::value::PrintableValue;

fn f(v: u128) -> FieldElement {
    FieldElement::from_u128(v)
}

fn field(v: u128) -> PrintableValue {
    PrintableValue::Field(f(v))
}

fn text_fields(text: &str) -> Vec<FieldElement> {
    text.bytes().map(|b| f(b as u128)).collect()
}

#[test]
fn field_as_hex() {
    assert_eq!(format_field_string(f(0)), "0x00");
    assert_eq!(format_field_string(f(1)), "0x01");
    assert_eq!(format_field_string(f(0xabc)), "0x0abc");
    assert_eq!(format_field_string(f(0x10)), "0x10");
    assert_eq!(format_field_string(f(u128::MAX)), "0xffffffffffffffffffffffffffffffff");
    assert_eq!(
        format_field_string(FieldElement::from_limbs(1, 0)),
        "0x0100000000000000000000000000000000"
    );
    assert_eq!(
        format_field_string(FieldElement::from_limbs(0x12, 0x34)),
        "0x1200000000000000000000000000000034"
    );
}

#[test]
fn integers_as_text() {
    let unsigned = |v: u128, width: u32| to_string(&field(v), &PrintableType::UnsignedInteger { width });
    let signed = |v: u128, width: u32| to_string(&field(v), &PrintableType::SignedInteger { width });
    assert_eq!(unsigned(300, 8), "44");
    assert_eq!(unsigned(255, 8), "255");
    assert_eq!(unsigned(7, 0), "0");
    assert_eq!(unsigned(u128::MAX, 128), "340282366920938463463374607431768211455");
    assert_eq!(unsigned(u128::MAX, 200), "340282366920938463463374607431768211455");
    assert_eq!(unsigned(u128::MAX, 127), "170141183460469231731687303715884105727");
    assert_eq!(signed(255, 8), "-1");
    assert_eq!(signed(128, 8), "-128");
    assert_eq!(signed(127, 8), "127");
    assert_eq!(signed(0x1ff, 8), "-1");
    assert_eq!(signed(1, 1), "-1");
    assert_eq!(signed(5, 0), "0");
    assert_eq!(signed(u128::MAX, 128), "-1");
    assert_eq!(signed(1 << 127, 128), "-170141183460469231731687303715884105728");
    assert_eq!(signed(3, 128), "3");
}

#[test]
fn values_as_text() {
    assert_eq!(to_string(&field(1), &PrintableType::Boolean), "true");
    assert_eq!(to_string(&field(0), &PrintableType::Boolean), "false");
    assert_eq!(to_string(&field(2), &PrintableType::Boolean), "false");
    assert_eq!(to_string(&field(255), &PrintableType::Field), "0xff");
    assert_eq!(
        to_string(&PrintableValue::String("hi".to_string()), &PrintableType::String { length: 2 }),
        "hi"
    );
    let array = PrintableType::Array {
        length: Some(3),
        typ: Box::new(PrintableType::UnsignedInteger { width: 32 }),
    };
    assert_eq!(to_string(&PrintableValue::Vec(vec![field(1), field(2), field(3)]), &array), "[1, 2, 3]");
    assert_eq!(to_string(&PrintableValue::Vec(vec![]), &array), "[]");
    let pair = PrintableType::Tuple {
        types: vec![PrintableType::Boolean, PrintableType::SignedInteger { width: 8 }],
    };
    assert_eq!(to_string(&PrintableValue::Vec(vec![field(1), field(254)]), &pair), "(true, -2)");
    assert_eq!(to_string(&PrintableValue::Vec(vec![field(1)]), &pair), "(true)");
    let point = PrintableType::Struct {
        name: "Point".to_string(),
        fields: vec![
            ("x".to_string(), PrintableType::UnsignedInteger { width: 8 }),
            ("y".to_string(), pair.clone()),
            ("z".to_string(), PrintableType::Field),
        ],
    };
    let value = PrintableValue::Struct(vec![
        ("y".to_string(), PrintableValue::Vec(vec![field(0), field(3)])),
        ("x".to_string(), field(9)),
    ]);
    assert_eq!(to_string(&value, &point), "Point { x: 9, y: (false, 3), z: <<opaque>> }");
    let function = PrintableType::Function {
        name: "go".to_string(),
        arguments: vec![
            ("a".to_string(), PrintableType::Field),
            ("b".to_string(), PrintableType::Boolean),
        ],
    };
    assert_eq!(to_string(&field(0), &function), "<<fn go(a, b)>>");
    let reference = PrintableType::MutableReference { typ: Box::new(PrintableType::Field) };
    assert_eq!(to_string(&field(0), &reference), "<<mutable ref>>");
    assert_eq!(to_string(&PrintableValue::Opaque, &reference), "<<mutable ref>>");
    assert_eq!(to_string(&PrintableValue::Opaque, &PrintableType::Unit {}), "<<opaque>>");
    assert_eq!(to_string(&PrintableValue::String("s".to_string()), &PrintableType::Field), "<<opaque>>");
    assert_eq!(to_string(&field(1), &array), "<<opaque>>");
}

#[test]
fn plain_display_is_the_value() {
    let shown = PrintableValueDisplay::Plain(field(5), PrintableType::UnsignedInteger { width: 8 });
    assert_eq!(shown.to_text(), Ok("5".to_string()));
}

#[test]
fn format_string_fills_placeholders_in_order() {
    let values = vec![
        (field(1), PrintableType::UnsignedInteger { width: 8 }),
        (field(1), PrintableType::Boolean),
        (field(9), PrintableType::Field),
    ];
    let shown = PrintableValueDisplay::FmtString("x={x}, ok:{flag_1} {} {é}!".to_string(), values);
    assert_eq!(shown.to_text(), Ok("x=1, ok:true {} {é}!".to_string()));
    let none = PrintableValueDisplay::FmtString("plain".to_string(), vec![]);
    assert_eq!(none.to_text(), Ok("plain".to_string()));
    let adjacent = PrintableValueDisplay::FmtString(
        "{a}{b}".to_string(),
        vec![(field(1), PrintableType::Boolean), (field(0), PrintableType::Boolean)],
    );
    assert_eq!(adjacent.to_text(), Ok("truefalse".to_string()));
}

#[test]
fn format_string_without_enough_values_fails() {
    let shown = PrintableValueDisplay::FmtString(
        "{a} and {b}".to_string(),
        vec![(field(1), PrintableType::Boolean)],
    );
    assert_eq!(shown.to_text(), Err(FormatError::MissingValue));
}

#[test]
fn fill_template_checks_the_spans() {
    let values = vec!["X".to_string(), "Y".to_string()];
    assert_eq!(fill_template("a{b}c{d}", &vec![(1, 4), (5, 8)], &values), Ok("aXcY".to_string()));
    assert_eq!(fill_template("a{b}c", &vec![], &values), Ok("a{b}c".to_string()));
    assert_eq!(fill_template("a{b}c", &vec![(1, 9)], &values), Err(FormatError::BadSpan));
    assert_eq!(fill_template("a{b}c", &vec![(3, 1)], &values), Err(FormatError::BadSpan));
    assert_eq!(
        fill_template("a{b}c{d}", &vec![(5, 8), (1, 4)], &values),
        Err(FormatError::BadSpan)
    );
    assert_eq!(
        fill_template("{a}{b}{c}", &vec![(0, 3), (3, 6), (6, 9)], &values),
        Err(FormatError::MissingValue)
    );
    // a span that cuts a character in two leaves bytes that are no text
    assert_eq!(fill_template("é", &vec![(0, 1)], &values), Err(FormatError::Malformed));
}

#[test]
fn foreign_call_error_messages() {
    assert_eq!(
        ForeignCallError::MissingForeignCallInputs.message(),
        "Foreign call inputs needed for execution are missing"
    );
    assert_eq!(
        ForeignCallError::ParsingError("eof".to_string()).message(),
        "Could not parse PrintableType argument. eof"
    );
    assert_eq!(
        ForeignCallError::ExternalResolverError("down".to_string()).message(),
        "Failed calling external resolver. down"
    );
}

#[test]
fn print_call_with_a_plain_value() {
    let params = vec![
        ForeignCallParam::Single(f(7)),
        ForeignCallParam::Array(vec![f(8), f(9)]),
        ForeignCallParam::Array(text_fields("{\"kind\":\"field\"}")),
        ForeignCallParam::Single(f(0)),
    ];
    assert_eq!(
        frame_print_call(&params),
        Ok(PrintFrame::Plain {
            type_description: "{\"kind\":\"field\"}".to_string(),
            fields: vec![f(7), f(8), f(9)],
        })
    );
    assert_eq!(
        plain_display(vec![f(7), f(8)], PrintableType::Field),
        Ok(PrintableValueDisplay::Plain(field(7), PrintableType::Field))
    );
    assert!(matches!(
        plain_display(vec![], PrintableType::Field),
        Err(PrintError::BadValue(_))
    ));
}

#[test]
fn print_call_with_a_format_string() {
    let params = vec![
        ForeignCallParam::Array(text_fields("a={a}")),
        ForeignCallParam::Single(f(1)),
        ForeignCallParam::Single(f(5)),
        ForeignCallParam::Array(text_fields("{\"kind\":\"field\"}")),
        ForeignCallParam::Single(f(1)),
    ];
    let frame = frame_print_call(&params).unwrap();
    match frame {
        PrintFrame::Formatted { message, num_values, inputs } => {
            assert_eq!(message, "a={a}");
            assert_eq!(num_values, 1);
            assert_eq!(inputs.len(), 2);
            assert_eq!(inputs[0], vec![f(5)]);
            let shown = formatted_display(message, vec![PrintableType::Field], &inputs).unwrap();
            assert_eq!(shown.to_text(), Ok("a=0x05".to_string()));
        },
        other => panic!("{:?}", other),
    }
}

#[test]
fn print_call_errors() {
    assert_eq!(frame_print_call(&vec![]), Err(PrintError::MissingInputs));
    assert_eq!(
        frame_print_call(&vec![ForeignCallParam::Array(vec![f(0)])]),
        Err(PrintError::MissingInputs)
    );
    assert_eq!(frame_print_call(&vec![ForeignCallParam::Single(f(0))]), Err(PrintError::MissingInputs));
    assert_eq!(
        frame_print_call(&vec![ForeignCallParam::Single(f(1)), ForeignCallParam::Single(f(1))]),
        Err(PrintError::MissingInputs)
    );
    assert!(matches!(
        frame_print_call(&vec![ForeignCallParam::Single(f(999)), ForeignCallParam::Single(f(0))]),
        Err(PrintError::BadText(_))
    ));
    let too_many = vec![
        ForeignCallParam::Array(text_fields("m")),
        ForeignCallParam::Single(f(3)),
        ForeignCallParam::Single(f(5)),
        ForeignCallParam::Single(f(1)),
    ];
    assert_eq!(frame_print_call(&too_many), Err(PrintError::MissingInputs));
    let slice = PrintableType::Tuple {
        types: vec![PrintableType::Array { length: None, typ: Box::new(PrintableType::Field) }],
    };
    assert_eq!(
        formatted_display("m".to_string(), vec![slice], &vec![vec![f(1)]]),
        Err(PrintError::Unsized)
    );
    let pair = PrintableType::Tuple { types: vec![PrintableType::Field, PrintableType::Field] };
    assert_eq!(
        formatted_display("m".to_string(), vec![pair], &vec![vec![f(1)]]),
        Err(PrintError::MissingInputs)
    );
}

#[test]
fn symbols_from_base64() {
    assert_eq!(
        decode_base64_symbol("eJyrVsrJT04syczPK1ayqq6tBQAz9wY7"),
        Ok("{\"locations\":{}}".to_string())
    );
    assert_eq!(
        decode_base64_symbols(vec![
            "eJyrVsrJT04syczPK1ayqq6tBQAz9wY7".to_string(),
            "eJzLSM3JyVcorsxNys8pBgAkEAU+".to_string(),
        ]),
        Ok(vec!["{\"locations\":{}}".to_string(), "hello symbols".to_string()])
    );
    assert_eq!(decode_base64_symbols(vec![]), Ok(vec![]));
}

#[test]
fn symbols_that_fail() {
    assert_eq!(
        decode_base64_symbol("not base64!"),
        Err(JsDebuggerError::new("Not a base64 string".to_string()))
    );
    let not_zlib = decode_base64_symbol("bm90IHpsaWI=").unwrap_err();
    assert!(not_zlib.message.starts_with("Failed to inflate symbol: "), "{}", not_zlib.message);
    assert_eq!(
        decode_base64_symbol("eJz7/w8AAv4B/g=="),
        Err(JsDebuggerError::new("Decoded text is not valid UTF-8".to_string()))
    );
    assert_eq!(
        decode_base64_symbols(vec![
            "eJzLSM3JyVcorsxNys8pBgAkEAU+".to_string(),
            "%%%".to_string(),
            "bm90IHpsaWI=".to_string(),
        ]),
        Err(JsDebuggerError::new("Not a base64 string".to_string()))
    );
}

#[test]
fn launch_arguments_and_defaults() {
    let data = vec![
        ("projectFolder".to_string(), LaunchValue::String("/p".to_string())),
        ("generateAcir".to_string(), LaunchValue::Bool(true)),
        ("package".to_string(), LaunchValue::Other),
        ("testName".to_string(), LaunchValue::String("t".to_string())),
    ];
    assert_eq!(
        launch_arguments(Some(&data)),
        Ok(LaunchArguments {
            project_folder: "/p".to_string(),
            package: None,
            prover_name: "Prover".to_string(),
            generate_acir: true,
            skip_instrumentation: true,
            test_name: Some("t".to_string()),
            oracle_resolver: None,
        })
    );
    let data = vec![
        ("skipInstrumentation".to_string(), LaunchValue::Bool(false)),
        ("generateAcir".to_string(), LaunchValue::Bool(true)),
        ("proverName".to_string(), LaunchValue::String("Inputs".to_string())),
        ("oracleResolver".to_string(), LaunchValue::String("http://r".to_string())),
        ("package".to_string(), LaunchValue::String("pkg".to_string())),
        ("projectFolder".to_string(), LaunchValue::String("/q".to_string())),
    ];
    assert_eq!(
        launch_arguments(Some(&data)),
        Ok(LaunchArguments {
            project_folder: "/q".to_string(),
            package: Some("pkg".to_string()),
            prover_name: "Inputs".to_string(),
            generate_acir: true,
            skip_instrumentation: false,
            test_name: None,
            oracle_resolver: Some("http://r".to_string()),
        })
    );
    assert_eq!(launch_arguments(None), Err(LaunchError::MissingArguments));
    assert_eq!(launch_arguments(Some(&vec![])), Err(LaunchError::MissingProjectFolder));
    let wrong = vec![("projectFolder".to_string(), LaunchValue::Bool(true))];
    assert_eq!(launch_arguments(Some(&wrong)), Err(LaunchError::MissingProjectFolder));
    assert_eq!(LaunchError::MissingArguments.message(), "Missing launch arguments");
    assert_eq!(LaunchError::MissingProjectFolder.message(), "Missing project folder argument");
}

#[test]
fn requests_before_the_launch() {
    assert_eq!(
        on_request(&DapRequest::Initialize),
        DapAction::Capabilities(Capabilities {
            supports_disassemble_request: true,
            supports_instruction_breakpoints: true,
            supports_stepping_granularity: true,
        })
    );
    assert_eq!(on_request(&DapRequest::Disconnect), DapAction::Stop);
    assert_eq!(
        on_request(&DapRequest::Other("Next".to_string())),
        DapAction::Unhandled("ERROR: unhandled command: Next".to_string())
    );
    assert_eq!(
        on_request(&DapRequest::Launch(None)),
        DapAction::Refuse("Missing launch arguments".to_string())
    );
    assert_eq!(
        on_request(&DapRequest::Launch(Some(vec![]))),
        DapAction::Refuse("Missing project folder argument".to_string())
    );
    let data = vec![("projectFolder".to_string(), LaunchValue::String("/p".to_string()))];
    match on_request(&DapRequest::Launch(Some(data))) {
        DapAction::Load(arguments) => {
            assert_eq!(arguments.project_folder, "/p");
            assert!(!arguments.generate_acir);
            assert!(!arguments.skip_instrumentation);
        },
        other => panic!("{:?}", other),
    }
}

#[test]
fn adapter_messages_and_options() {
    assert_eq!(
        workspace_not_found_error_msg("/p", None),
        "Noir Debugger could not load program from /p"
    );
    assert_eq!(
        workspace_not_found_error_msg("/p", Some("pkg")),
        "Noir Debugger could not load program from /p, package pkg"
    );
    assert_eq!(parse_expression_width("0"), Some(ExpressionWidth::Unbounded));
    assert_eq!(parse_expression_width("4"), Some(ExpressionWidth::Bounded { width: 4 }));
    assert_eq!(parse_expression_width("+12"), Some(ExpressionWidth::Bounded { width: 12 }));
    assert_eq!(parse_expression_width(""), None);
    assert_eq!(parse_expression_width("-1"), None);
    assert_eq!(parse_expression_width("four"), None);
    assert_eq!(parse_expression_width("99999999999999999999999999999"), None);
    assert_eq!(
        compile_options_for_debugging(false, false),
        DebugCompileOptions { instrument_debug: true, force_brillig: true }
    );
    assert_eq!(
        compile_options_for_debugging(true, true),
        DebugCompileOptions { instrument_debug: false, force_brillig: false }
    );
    assert!(skips_instrumentation(true, None));
    assert!(!skips_instrumentation(false, None));
    assert!(!skips_instrumentation(true, Some(false)));
    assert_eq!(preflight_project_folder(Some("/p".to_string())), Ok("/p".to_string()));
    assert_eq!(
        preflight_project_folder(None),
        Err("Noir Debugger could not initialize because the IDE (for example, VS Code) did not specify a project folder to debug.".to_string())
    );
}

fn plain(text: &str) -> Segment {
    Segment { color: None, text: text.to_string() }
}

fn green(text: &str) -> Segment {
    Segment { color: Some(Color::Green), text: text.to_string() }
}

fn red(text: &str) -> Segment {
    Segment { color: Some(Color::Red), text: text.to_string() }
}

#[test]
fn test_report_of_passes_and_failures() {
    let report = vec![
        ("a".to_string(), TestStatus::Pass),
        ("b".to_string(), TestStatus::Fail { message: "boom".to_string() }),
        ("c".to_string(), TestStatus::CompileError),
    ];
    assert_eq!(
        display_test_report("pkg", &report),
        vec![
            plain("[pkg] Testing a... "),
            green("ok\n"),
            plain("[pkg] Testing b... "),
            red("FAIL\nboom\n\n"),
            plain("[pkg] Testing c... "),
            plain("[pkg] "),
            green("1 test passed, "),
            red("2 tests failed\n"),
        ]
    );
    let all_pass = vec![("a".to_string(), TestStatus::Pass), ("b".to_string(), TestStatus::Pass)];
    assert_eq!(
        display_test_report("pkg", &all_pass),
        vec![
            plain("[pkg] Testing a... "),
            green("ok\n"),
            plain("[pkg] Testing b... "),
            green("ok\n"),
            plain("[pkg] "),
            green("2 tests passed"),
            plain("\n"),
        ]
    );
    let one_fails = vec![("a".to_string(), TestStatus::CompileError)];
    assert_eq!(
        display_test_report("pkg", &one_fails),
        vec![plain("[pkg] Testing a... "), plain("[pkg] "), red("1 test failed\n")]
    );
    assert_eq!(
        display_test_report("pkg", &vec![]),
        vec![plain("[pkg] "), green("0 tests passed"), plain("\n")]
    );
}

#[test]
fn test_runs_and_their_results() {
    assert_eq!(
        debug_mode_for("pkg", true, 2),
        (
            false,
            vec![
                "[pkg] Ignoring --debug flag since debugging multiple test is disabled".to_string(),
                "[pkg] Running 2 test functions".to_string(),
            ]
        )
    );
    assert_eq!(debug_mode_for("pkg", true, 1), (true, vec!["[pkg] Running 1 test function".to_string()]));
    assert_eq!(debug_mode_for("pkg", false, 0), (false, vec!["[pkg] Running 0 test functions".to_string()]));
    assert_eq!(
        run_result(&FunctionNameMatch::Exact("t".to_string()), &vec![]),
        Err("Found 0 tests matching input 't'.".to_string())
    );
    assert_eq!(
        run_result(&FunctionNameMatch::Contains("t".to_string()), &vec![]),
        Err("Found 0 tests containing 't'.".to_string())
    );
    assert_eq!(run_result(&FunctionNameMatch::Anything, &vec![]), Ok(()));
    let failing = vec![("a".to_string(), TestStatus::Pass), ("b".to_string(), TestStatus::CompileError)];
    assert_eq!(run_result(&FunctionNameMatch::Anything, &failing), Err(String::new()));
    let passing = vec![("a".to_string(), TestStatus::Pass)];
    assert_eq!(run_result(&FunctionNameMatch::Exact("a".to_string()), &passing), Ok(()));
    assert!(TestStatus::CompileError.failed());
    assert!(!TestStatus::Pass.failed());
}

#[test]
fn test_to_debug() {
    assert_eq!(
        get_test_function("t", &vec![]),
        Err("`t` does not match with any test function".to_string())
    );
    assert_eq!(
        get_test_function("t", &vec![("t1".to_string(), false), ("t2".to_string(), false)]),
        Err("`t` matches with more than one test function".to_string())
    );
    assert_eq!(
        get_test_function("t", &vec![("t1".to_string(), true)]),
        Err("Cannot debug tests with arguments".to_string())
    );
    assert_eq!(get_test_function("t", &vec![("t1".to_string(), false)]), Ok("t1".to_string()));
}

#[test]
fn field_text_of_the_solver() {
    assert_eq!(FieldElement::try_from_str("42"), Some(f(42)));
    assert_eq!(FieldElement::try_from_str("0x10"), Some(f(16)));
    assert_eq!(FieldElement::try_from_str("forty-two"), None);
    assert_eq!(f(5).to_display(), "5");
    assert_eq!(f(0).to_display(), "0");
}

#[test]
fn field_bytes() {
    let element = FieldElement::from_limbs(0x0102, 0xff00);
    let bytes = element.to_be_bytes();
    assert_eq!(bytes.len(), 32);
    assert_eq!(&bytes[14..16], &[1, 2]);
    assert_eq!(&bytes[30..32], &[0xff, 0]);
    assert_eq!(bytes.iter().filter(|b| **b != 0).count(), 3);
    assert_eq!(FieldElement::from_be_bytes(&bytes), Some(element));
    assert_eq!(FieldElement::from_be_bytes(&bytes[1..]), None);
    assert!(FieldElement::zero().is_zero());
    assert!(FieldElement::one().is_one());
    assert!(!FieldElement::from_limbs(1, 0).is_zero());
    assert!(!FieldElement::from_limbs(1, 1).is_one());
    assert_eq!(FieldElement::from_limbs(9, 7).to_u128(), 7);
}

#[test]
fn debugged_tests_and_outcomes() {
    assert_eq!(debugged_test(Ok(DebugExecutionResult::Solved)), DebuggedTest::Ran);
    assert_eq!(
        debugged_test(Ok(DebugExecutionResult::Error(ExecutionError::SolvingError("e".to_string())))),
        DebuggedTest::Failed(ExecutionError::SolvingError("e".to_string()))
    );
    assert_eq!(
        debugged_test(Ok(DebugExecutionResult::Incomplete)),
        DebuggedTest::Fail("Debugger halted. Incomplete execution".to_string())
    );
    assert_eq!(
        debugged_test(Err("no input".to_string())),
        DebuggedTest::Fail("Debugger failed: no input".to_string())
    );
    assert_eq!(debug_outcome(true), "Witness solved!");
    assert_eq!(debug_outcome(false), "Witness NOT solved ;(!");
}

#[test]
fn no_command_passes_after_finalize() {
    let mut watch = SessionWatch::new();
    assert!(watch.accept(&DebugCommandAPI::Cont));
    assert!(watch.accept(&DebugCommandAPI::GetWitnessMap));
    assert!(watch.accept(&DebugCommandAPI::Finalize));
    assert!(!watch.accept(&DebugCommandAPI::Cont));
    assert!(!watch.accept(&DebugCommandAPI::Finalize));
}

#[test]
fn canonical_elements_are_below_the_order() {
    let order_hi = 0x30644e72e131a029b85045b68181585du128;
    let order_lo = 0x2833e84879b9709143e1f593f0000001u128;
    assert_eq!(noir_debugger::field::ORDER_HI, order_hi);
    assert_eq!(noir_debugger::field::ORDER_LO, order_lo);
    assert!(FieldElement::zero().is_canonical());
    assert!(FieldElement::one().is_canonical());
    assert!(FieldElement::from_u128(u128::MAX).is_canonical());
    assert!(FieldElement::from_limbs(order_hi, order_lo - 1).is_canonical());
    assert!(FieldElement::from_limbs(order_hi - 1, u128::MAX).is_canonical());
    assert!(!FieldElement::from_limbs(order_hi, order_lo).is_canonical());
    assert!(!FieldElement::from_limbs(order_hi, order_lo + 1).is_canonical());
    assert!(!FieldElement::from_limbs(order_hi + 1, 0).is_canonical());
    assert!(!FieldElement::from_limbs(u128::MAX, u128::MAX).is_canonical());
    // what the solver reads from text is canonical, and a number that is not
    // is shown as the element that it is reduced to
    let read = FieldElement::try_from_str(
        "0x30644e72e131a029b85045b68181585d2833e84879b9709143e1f593f0000002",
    )
    .unwrap();
    assert_eq!(read, FieldElement::one());
    assert!(read.is_canonical());
    assert_eq!(FieldElement::from_limbs(order_hi, order_lo + 4).to_display(), "4");
}
