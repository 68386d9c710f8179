use noir_debugger::location::{DebugLocation, OpcodeLocation};
use noir_debugger::text::{decimal_digits, parse_decimal};

fn chars(s: &str) -> Vec<char> {
    s.chars().collect()
}

#[test]
fn location_text_forms() {
    let acir = DebugLocation {
        circuit_id: 0,
        opcode_location: OpcodeLocation::Acir(12),
        brillig_function_id: None,
    };
    assert_eq!(acir.to_text(), "0:12");
    assert_eq!(DebugLocation::parse("0:12"), Some(acir));
    let brillig = DebugLocation {
        circuit_id: 3,
        opcode_location: OpcodeLocation::Brillig { acir_index: 5, brillig_index: 40 },
        brillig_function_id: None,
    };
    assert_eq!(brillig.to_text(), "3:5.40");
    assert_eq!(DebugLocation::parse("3:5.40"), Some(brillig));
    let with_function = DebugLocation { brillig_function_id: Some(7), ..brillig };
    assert_eq!(with_function.to_text(), "3:5.40:7");
    assert_eq!(DebugLocation::parse("3:5.40:7"), Some(with_function));
}

#[test]
fn location_text_that_is_refused() {
    for text in [
        "", "12", ":", "0:", ":1", "0:1.", "0:.1", "0:1.2.3", "0:1:2:3", "a:1", "0:x", "0 :1",
        "0:1:", "-1:2", "4294967296:0", "0:99999999999999999999999999999", "0:1:4294967296",
    ] {
        assert_eq!(DebugLocation::parse(text), None, "{}", text);
    }
    assert!(DebugLocation::parse("4294967295:0").is_some());
    assert!(DebugLocation::parse("007:01.002").is_some());
}

#[test]
fn location_order_within_a_circuit() {
    let a4 = OpcodeLocation::Acir(4);
    let a5 = OpcodeLocation::Acir(5);
    let b50 = OpcodeLocation::Brillig { acir_index: 5, brillig_index: 0 };
    let b51 = OpcodeLocation::Brillig { acir_index: 5, brillig_index: 1 };
    let a6 = OpcodeLocation::Acir(6);
    let ordered = [a4, a5, b50, b51, a6];
    for i in 0..ordered.len() {
        for j in 0..ordered.len() {
            assert_eq!(ordered[i].precedes(&ordered[j]), i < j);
        }
    }
    assert_eq!(b51.acir_index(), 5);
    assert_eq!(a6.acir_index(), 6);
}

#[test]
fn decimal_text() {
    assert_eq!(decimal_digits(0), chars("0"));
    assert_eq!(decimal_digits(9), chars("9"));
    assert_eq!(decimal_digits(10), chars("10"));
    assert_eq!(decimal_digits(u128::MAX), chars("340282366920938463463374607431768211455"));
    let digits = chars("x0123y");
    assert_eq!(parse_decimal(&digits, 1, 5, 1000), Some(123));
    assert_eq!(parse_decimal(&digits, 1, 5, 122), None);
    assert_eq!(parse_decimal(&digits, 1, 5, 123), Some(123));
    assert_eq!(parse_decimal(&digits, 0, 5, 1000), None);
    assert_eq!(parse_decimal(&digits, 2, 2, 1000), None);
    let big = chars("340282366920938463463374607431768211455");
    assert_eq!(parse_decimal(&big, 0, big.len(), u128::MAX), Some(u128::MAX));
    let too_big = chars("340282366920938463463374607431768211456");
    assert_eq!(parse_decimal(&too_big, 0, too_big.len(), u128::MAX), None);
}
