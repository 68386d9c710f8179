use noir_debugger::decode::{
    decode_string_value, decode_value, encode_value, try_decode_string_value, try_decode_value,
    DecodeError, FieldIterator,
};
use noir_debugger::printable::types_equal;
use noir_debugger::field::FieldElement;
use noir_debugger::printable::PrintableType;
use noir_debugger::value::PrintableValue;

fn fields(values: &[u128]) -> Vec<FieldElement> {
    values.iter().map(|v| FieldElement::from_u128(*v)).collect()
}

#[test]
fn field_count_of_scalars_is_one() {
    assert_eq!(PrintableType::Field.field_count(), Some(1));
    assert_eq!(PrintableType::Boolean.field_count(), Some(1));
    assert_eq!(PrintableType::SignedInteger { width: 8 }.field_count(), Some(1));
    assert_eq!(PrintableType::UnsignedInteger { width: 64 }.field_count(), Some(1));
}

#[test]
fn field_count_of_array_multiplies() {
    let t = PrintableType::Array {
        length: Some(3),
        typ: Box::new(PrintableType::Tuple {
            types: vec![PrintableType::Field, PrintableType::String { length: 4 }],
        }),
    };
    assert_eq!(t.field_count(), Some(15));
}

#[test]
fn field_count_of_slice_is_undefined() {
    let slice = PrintableType::Array { length: None, typ: Box::new(PrintableType::Field) };
    assert_eq!(slice.field_count(), None);
    let holder = PrintableType::Struct {
        name: "S".to_string(),
        fields: vec![("a".to_string(), PrintableType::Field), ("b".to_string(), slice)],
    };
    assert_eq!(holder.field_count(), None);
}

#[test]
fn field_count_beyond_32_bits_is_none() {
    let t = PrintableType::Array {
        length: Some(u64::MAX),
        typ: Box::new(PrintableType::Field),
    };
    assert_eq!(t.field_count(), None);
    let empty = PrintableType::Array { length: Some(0), typ: Box::new(t) };
    assert_eq!(empty.field_count(), Some(0));
}

#[test]
fn decode_struct_with_string_and_array() {
    let typ = PrintableType::Struct {
        name: "Pair".to_string(),
        fields: vec![
            ("label".to_string(), PrintableType::String { length: 2 }),
            (
                "items".to_string(),
                PrintableType::Array { length: Some(2), typ: Box::new(PrintableType::Field) },
            ),
        ],
    };
    let mut stream = FieldIterator::new(fields(&[104, 105, 7, 9, 42]));
    let value = decode_value(&mut stream, &typ);
    assert_eq!(
        value,
        PrintableValue::Struct(vec![
            ("label".to_string(), PrintableValue::String("hi".to_string())),
            (
                "items".to_string(),
                PrintableValue::Vec(vec![
                    PrintableValue::Field(FieldElement::from_u128(7)),
                    PrintableValue::Field(FieldElement::from_u128(9)),
                ]),
            ),
        ])
    );
    assert_eq!(stream.remaining(), 1);
}

#[test]
fn decode_slice_reads_its_length_first() {
    let typ = PrintableType::Array { length: None, typ: Box::new(PrintableType::Boolean) };
    let mut stream = FieldIterator::new(fields(&[2, 1, 0, 5]));
    let value = try_decode_value(&mut stream, &typ);
    assert_eq!(
        value,
        Ok(PrintableValue::Vec(vec![
            PrintableValue::Field(FieldElement::from_u128(1)),
            PrintableValue::Field(FieldElement::from_u128(0)),
        ]))
    );
    assert_eq!(stream.remaining(), 1);
}

#[test]
fn decode_errors() {
    let mut short = FieldIterator::new(fields(&[1]));
    let pair = PrintableType::Tuple { types: vec![PrintableType::Field, PrintableType::Field] };
    assert_eq!(try_decode_value(&mut short, &pair), Err(DecodeError::MissingData));

    let mut wide = FieldIterator::new(fields(&[256]));
    assert_eq!(
        try_decode_value(&mut wide, &PrintableType::String { length: 1 }),
        Err(DecodeError::NotAByte)
    );

    let mut bad = FieldIterator::new(fields(&[0xff]));
    assert_eq!(
        try_decode_value(&mut bad, &PrintableType::String { length: 1 }),
        Err(DecodeError::InvalidUtf8)
    );
}

#[test]
fn decode_opaque_consumes_nothing() {
    let mut stream = FieldIterator::new(fields(&[1, 2]));
    assert_eq!(
        try_decode_value(&mut stream, &PrintableType::Unit {}),
        Ok(PrintableValue::Opaque)
    );
    assert_eq!(stream.remaining(), 2);
}

#[test]
fn encoding_then_decoding_gives_the_value_back() {
    let typ = PrintableType::Struct {
        name: "S".to_string(),
        fields: vec![
            ("text".to_string(), PrintableType::String { length: 3 }),
            (
                "rows".to_string(),
                PrintableType::Array {
                    length: Some(2),
                    typ: Box::new(PrintableType::Tuple {
                        types: vec![PrintableType::Boolean, PrintableType::SignedInteger { width: 8 }],
                    }),
                },
            ),
            ("nothing".to_string(), PrintableType::Unit {}),
        ],
    };
    let row = |a: u128, b: u128| {
        PrintableValue::Vec(vec![
            PrintableValue::Field(FieldElement::from_u128(a)),
            PrintableValue::Field(FieldElement::from_u128(b)),
        ])
    };
    let value = PrintableValue::Struct(vec![
        ("text".to_string(), PrintableValue::String("h\u{e9}".to_string())),
        ("rows".to_string(), PrintableValue::Vec(vec![row(1, 200), row(0, 3)])),
        ("nothing".to_string(), PrintableValue::Opaque),
    ]);
    let encoded = encode_value(&value, &typ);
    assert_eq!(encoded, fields(&[104, 0xc3, 0xa9, 1, 200, 0, 3]));
    assert_eq!(Some(encoded.len() as u32), typ.field_count());
    let mut stream = FieldIterator::new(encoded);
    assert_eq!(decode_value(&mut stream, &typ), value);
    assert_eq!(stream.remaining(), 0);
}

#[test]
fn strings_from_field_elements() {
    assert_eq!(decode_string_value(&fields(&[111, 107])), "ok");
    assert_eq!(decode_string_value(&fields(&[])), "");
    assert_eq!(try_decode_string_value(&fields(&[111, 300])), Err(DecodeError::NotAByte));
    assert_eq!(
        try_decode_string_value(&[FieldElement::from_limbs(1, 65)]),
        Err(DecodeError::NotAByte)
    );
    assert_eq!(try_decode_string_value(&fields(&[0xc3])), Err(DecodeError::InvalidUtf8));
}

#[test]
fn slice_length_is_narrowed_to_64_bits() {
    let typ = PrintableType::Array { length: None, typ: Box::new(PrintableType::Field) };
    let mut stream = FieldIterator::new(vec![
        FieldElement::from_limbs(5, (1u128 << 64) + 1),
        FieldElement::from_u128(9),
    ]);
    assert_eq!(
        try_decode_value(&mut stream, &typ),
        Ok(PrintableValue::Vec(vec![PrintableValue::Field(FieldElement::from_u128(9))]))
    );
}

#[test]
fn struct_with_a_name_twice_keeps_the_last_value() {
    let typ = PrintableType::Struct {
        name: "S".to_string(),
        fields: vec![
            ("a".to_string(), PrintableType::Field),
            ("b".to_string(), PrintableType::Field),
            ("a".to_string(), PrintableType::Field),
        ],
    };
    let mut stream = FieldIterator::new(fields(&[1, 2, 3]));
    assert_eq!(
        decode_value(&mut stream, &typ),
        PrintableValue::Struct(vec![
            ("a".to_string(), PrintableValue::Field(FieldElement::from_u128(3))),
            ("b".to_string(), PrintableValue::Field(FieldElement::from_u128(2))),
        ])
    );
}

#[test]
fn types_are_compared_by_structure() {
    let a = PrintableType::Tuple {
        types: vec![PrintableType::Field, PrintableType::String { length: 2 }],
    };
    let b = a.clone();
    assert!(types_equal(&a, &b));
    let c = PrintableType::Tuple {
        types: vec![PrintableType::Field, PrintableType::String { length: 3 }],
    };
    assert!(!types_equal(&a, &c));
    assert!(!types_equal(&a, &PrintableType::Field));
    assert!(types_equal(&PrintableType::Unit {}, &PrintableType::Unit {}));
    assert!(!types_equal(&PrintableType::Unit {}, &PrintableType::Error {}));
}
