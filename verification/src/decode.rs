//! Decoding printable values from the flat stream of field elements in which
//! the running program delivers them.

use crate::field::FieldElement;
use crate::printable::{
    field_views, lemma_field_views, lemma_type_views, PrintableType, spec_field_count,
    type_views, TypeView,
};
use crate::value::{
    entries_insert, entry_position, entry_views, lemma_entry_position, lemma_value_views,
    PrintableValue, struct_insert, value_views, ValueView,
};
use vstd::prelude::*;
use vstd::utf8::{
    decode_utf8, encode_utf8, encode_utf8_decode_utf8, encode_utf8_valid_utf8, valid_utf8,
};

verus! {

/// Why a stream of field elements does not decode as a value of a type.
#[derive(Clone, Copy, Debug, PartialEq, Eq, Structural)]
pub enum DecodeError {
    /// The stream ends before the value does.
    MissingData,
    /// A character of a string is a field element above 255.
    NotAByte,
    /// The bytes of a string are not UTF-8.
    InvalidUtf8,
}

/// A stream of field elements that is read from the front.
pub struct FieldIterator {
    fields: Vec<FieldElement>,
    position: usize,
}

impl View for FieldIterator {
    type V = Seq<FieldElement>;

    /// The elements not read yet.
    closed spec fn view(&self) -> Seq<FieldElement> {
        if self.position <= self.fields.len() {
            self.fields@.skip(self.position as int)
        } else {
            Seq::empty()
        }
    }
}

impl FieldIterator {
    /// A stream that yields `fields` in order.
    pub fn new(fields: Vec<FieldElement>) -> (stream: FieldIterator)
        ensures
            stream@ == fields@,
    {
        let stream = FieldIterator { fields, position: 0 };
        assert(stream.fields@.skip(0) =~= stream.fields@);
        stream
    }

    /// The number of elements not read yet.
    pub fn remaining(&self) -> (n: usize)
        ensures
            n == self@.len(),
    {
        if self.position <= self.fields.len() {
            self.fields.len() - self.position
        } else {
            0
        }
    }

    /// Reads one element, if any is left.
    pub fn next(&mut self) -> (item: Option<FieldElement>)
        ensures
            old(self)@.len() == 0 ==> item.is_none() && final(self)@ == old(self)@,
            old(self)@.len() > 0 ==> item == Some(old(self)@[0]) && final(self)@ == old(
                self,
            )@.drop_first(),
    {
        if self.position < self.fields.len() {
            let item = self.fields[self.position];
            self.position += 1;
            assert(self@ =~= old(self)@.drop_first());
            Some(item)
        } else {
            None
        }
    }
}

/// `String::from_utf8` of the standard library: the string that the bytes
/// encode, or nothing where they are not UTF-8.
#[verifier::external_body]
pub(crate) fn string_from_utf8(bytes: Vec<u8>) -> (text: Option<String>)
    ensures
        text.is_some() == valid_utf8(bytes@),
        text matches Some(s) ==> s@ == decode_utf8(bytes@),
{
    String::from_utf8(bytes).ok()
}

/// Whether a field element is a single byte.
pub open spec fn is_byte(f: FieldElement) -> bool {
    f.hi == 0 && f.lo < 256
}

/// The low byte of each element.
pub open spec fn low_bytes(fields: Seq<FieldElement>) -> Seq<u8> {
    Seq::new(fields.len(), |i: int| (fields[i].lo % 256) as u8)
}

/// The string that a run of field elements holds, one byte per element.
pub open spec fn spec_decode_string(fields: Seq<FieldElement>) -> Result<Seq<char>, DecodeError> {
    if exists|i: int| 0 <= i < fields.len() && !is_byte(#[trigger] fields[i]) {
        Err(DecodeError::NotAByte)
    } else if !valid_utf8(low_bytes(fields)) {
        Err(DecodeError::InvalidUtf8)
    } else {
        Ok(decode_utf8(low_bytes(fields)))
    }
}

/// The length that opens a slice: the element's value narrowed to 64 bits.
pub open spec fn slice_length(f: FieldElement) -> nat {
    (f.lo as nat) % 0x1_0000_0000_0000_0000
}

/// The value of type `t` at the front of `s`, and what is left of `s` behind it.
pub open spec fn spec_decode(s: Seq<FieldElement>, t: TypeView) -> Result<
    (ValueView, Seq<FieldElement>),
    DecodeError,
>
    decreases t, 0nat,
{
    match t {
        TypeView::Field
        | TypeView::SignedInteger { .. }
        | TypeView::UnsignedInteger { .. }
        | TypeView::Boolean => if s.len() == 0 {
            Err(DecodeError::MissingData)
        } else {
            Ok((ValueView::Field(s[0]), s.drop_first()))
        },
        TypeView::Array { length: None, typ } => if s.len() == 0 {
            Err(DecodeError::MissingData)
        } else {
            match spec_decode_repeat(s.drop_first(), *typ, slice_length(s[0])) {
                Ok((values, rest)) => Ok((ValueView::Vec(values), rest)),
                Err(e) => Err(e),
            }
        },
        TypeView::Array { length: Some(n), typ } => match spec_decode_repeat(s, *typ, n as nat) {
            Ok((values, rest)) => Ok((ValueView::Vec(values), rest)),
            Err(e) => Err(e),
        },
        TypeView::Tuple { types } => match spec_decode_each(s, types) {
            Ok((values, rest)) => Ok((ValueView::Vec(values), rest)),
            Err(e) => Err(e),
        },
        TypeView::String { length } => if s.len() < length {
            Err(DecodeError::MissingData)
        } else {
            match spec_decode_string(s.take(length as int)) {
                Ok(text) => Ok((ValueView::String(text), s.skip(length as int))),
                Err(e) => Err(e),
            }
        },
        TypeView::Struct { fields, .. } => match spec_decode_fields(s, fields) {
            Ok((entries, rest)) => Ok((ValueView::Struct(entries), rest)),
            Err(e) => Err(e),
        },
        _ => Ok((ValueView::Opaque, s)),
    }
}

/// `n` values of type `t`, one behind the other.
pub open spec fn spec_decode_repeat(s: Seq<FieldElement>, t: TypeView, n: nat) -> Result<
    (Seq<ValueView>, Seq<FieldElement>),
    DecodeError,
>
    decreases t, n + 1,
{
    if n == 0 {
        Ok((Seq::empty(), s))
    } else {
        match spec_decode_repeat(s, t, (n - 1) as nat) {
            Err(e) => Err(e),
            Ok((values, rest)) => match spec_decode(rest, t) {
                Err(e) => Err(e),
                Ok((value, rest2)) => Ok((values.push(value), rest2)),
            },
        }
    }
}

/// One value of each of `types`, one behind the other.
pub open spec fn spec_decode_each(s: Seq<FieldElement>, types: Seq<TypeView>) -> Result<
    (Seq<ValueView>, Seq<FieldElement>),
    DecodeError,
>
    decreases types, 0nat,
{
    if types.len() == 0 {
        Ok((Seq::empty(), s))
    } else {
        match spec_decode_each(s, types.drop_last()) {
            Err(e) => Err(e),
            Ok((values, rest)) => match spec_decode(rest, types.last()) {
                Err(e) => Err(e),
                Ok((value, rest2)) => Ok((values.push(value), rest2)),
            },
        }
    }
}

/// One value for each of `fields`, bound to the field's name.
pub open spec fn spec_decode_fields(
    s: Seq<FieldElement>,
    fields: Seq<(Seq<char>, TypeView)>,
) -> Result<(Seq<(Seq<char>, ValueView)>, Seq<FieldElement>), DecodeError>
    decreases fields, 0nat,
{
    if fields.len() == 0 {
        Ok((Seq::empty(), s))
    } else {
        match spec_decode_fields(s, fields.drop_last()) {
            Err(e) => Err(e),
            Ok((entries, rest)) => match spec_decode(rest, fields.last().1) {
                Err(e) => Err(e),
                Ok((value, rest2)) => Ok((entries_insert(entries, fields.last().0, value), rest2)),
            },
        }
    }
}

/// Once a value of the run fails to decode, so does every longer run.
pub proof fn lemma_repeat_error(s: Seq<FieldElement>, t: TypeView, i: nat, n: nat)
    requires
        i <= n,
        spec_decode_repeat(s, t, i).is_err(),
    ensures
        spec_decode_repeat(s, t, n) == spec_decode_repeat(s, t, i),
    decreases n,
{
    if i < n {
        lemma_repeat_error(s, t, i, (n - 1) as nat);
    }
}

/// Once a prefix of the types fails to decode, so does the whole.
pub proof fn lemma_each_error(s: Seq<FieldElement>, types: Seq<TypeView>, i: int)
    requires
        0 <= i <= types.len(),
        spec_decode_each(s, types.take(i)).is_err(),
    ensures
        spec_decode_each(s, types) == spec_decode_each(s, types.take(i)),
    decreases types.len(),
{
    if i < types.len() {
        assert(types.drop_last().take(i) =~= types.take(i));
        lemma_each_error(s, types.drop_last(), i);
    } else {
        assert(types.take(i) =~= types);
    }
}

/// Once a prefix of the fields fails to decode, so does the whole.
pub proof fn lemma_fields_error(s: Seq<FieldElement>, fields: Seq<(Seq<char>, TypeView)>, i: int)
    requires
        0 <= i <= fields.len(),
        spec_decode_fields(s, fields.take(i)).is_err(),
    ensures
        spec_decode_fields(s, fields) == spec_decode_fields(s, fields.take(i)),
    decreases fields.len(),
{
    if i < fields.len() {
        assert(fields.drop_last().take(i) =~= fields.take(i));
        lemma_fields_error(s, fields.drop_last(), i);
    } else {
        assert(fields.take(i) =~= fields);
    }
}

/// Decodes a string from field elements that hold one byte each.
/// Fails where an element is above 255 or the bytes are not UTF-8.
pub fn try_decode_string_value(field_elements: &[FieldElement]) -> (text: Result<
    String,
    DecodeError,
>)
    ensures
        match (text, spec_decode_string(field_elements@)) {
            (Ok(s), Ok(chars)) => s@ == chars,
            (Err(e), Err(expected)) => e == expected,
            _ => false,
        },
{
    let mut bytes: Vec<u8> = Vec::new();
    let mut i: usize = 0;
    while i < field_elements.len()
        invariant
            0 <= i <= field_elements.len(),
            bytes.len() == i,
            forall|k: int| 0 <= k < i ==> is_byte(#[trigger] field_elements@[k]),
            forall|k: int| 0 <= k < i ==> #[trigger] bytes[k] == (field_elements@[k].lo % 256) as u8,
        decreases field_elements.len() - i,
    {
        let f = field_elements[i];
        if f.hi != 0 || f.lo >= 256 {
            assert(!is_byte(field_elements@[i as int]));
            return Err(DecodeError::NotAByte);
        }
        bytes.push(f.lo as u8);
        i += 1;
    }
    assert(bytes@ =~= low_bytes(field_elements@));
    match string_from_utf8(bytes) {
        Some(s) => Ok(s),
        None => Err(DecodeError::InvalidUtf8),
    }
}

/// Decodes a string from field elements that hold one byte each.
pub fn decode_string_value(field_elements: &[FieldElement]) -> (text: String)
    requires
        spec_decode_string(field_elements@).is_ok(),
    ensures
        Ok::<Seq<char>, DecodeError>(text@) == spec_decode_string(field_elements@),
{
    match try_decode_string_value(field_elements) {
        Ok(s) => s,
        Err(_) => String::new(),
    }
}

/// What a decoding returns, held against the model: the value and the rest of
/// the stream on success, the same error on failure.
pub open spec fn decoded_as(
    result: Result<PrintableValue, DecodeError>,
    rest: Seq<FieldElement>,
    expected: Result<(ValueView, Seq<FieldElement>), DecodeError>,
) -> bool {
    match (result, expected) {
        (Ok(value), Ok((model, after))) => value@ == model && rest == after,
        (Err(e), Err(expected_error)) => e == expected_error,
        _ => false,
    }
}

fn decode_repeat(stream: &mut FieldIterator, typ: &PrintableType, n: u64) -> (result: Result<
    PrintableValue,
    DecodeError,
>)
    ensures
        decoded_as(
            result,
            final(stream)@,
            match spec_decode_repeat(old(stream)@, typ@, n as nat) {
                Ok((values, rest)) => Ok((ValueView::Vec(values), rest)),
                Err(e) => Err(e),
            },
        ),
    decreases typ, 1nat,
{
    let ghost start = stream@;
    let mut values: Vec<PrintableValue> = Vec::new();
    let mut i: u64 = 0;
    while i < n
        invariant
            0 <= i <= n,
            start == old(stream)@,
            spec_decode_repeat(start, typ@, i as nat) == Ok::<
                (Seq<ValueView>, Seq<FieldElement>),
                DecodeError,
            >((value_views(values@), stream@)),
        decreases n - i,
    {
        let ghost prev = values@;
        match try_decode_value(stream, typ) {
            Err(e) => {
                proof {
                    lemma_repeat_error(start, typ@, (i + 1) as nat, n as nat);
                }
                return Err(e);
            },
            Ok(value) => {
                values.push(value);
            },
        }
        proof {
            assert(values@.drop_last() =~= prev);
        }
        i += 1;
    }
    Ok(PrintableValue::Vec(values))
}

/// Decodes the value of type `typ` at the front of the stream. Fails where the
/// stream ends too early or a string is not made of UTF-8 bytes.
pub fn try_decode_value(stream: &mut FieldIterator, typ: &PrintableType) -> (result: Result<
    PrintableValue,
    DecodeError,
>)
    ensures
        decoded_as(result, final(stream)@, spec_decode(old(stream)@, typ@)),
    decreases typ, 0nat,
{
    match typ {
        PrintableType::Field
        | PrintableType::SignedInteger { .. }
        | PrintableType::UnsignedInteger { .. }
        | PrintableType::Boolean => {
            match stream.next() {
                Some(f) => Ok(PrintableValue::Field(f)),
                None => Err(DecodeError::MissingData),
            }
        },
        PrintableType::Array { length: None, typ: element } => {
            match stream.next() {
                None => Err(DecodeError::MissingData),
                Some(f) => {
                    let n = (f.lo % 0x1_0000_0000_0000_0000u128) as u64;
                    decode_repeat(stream, &**element, n)
                },
            }
        },
        PrintableType::Array { length: Some(n), typ: element } => decode_repeat(
            stream,
            &**element,
            *n,
        ),
        PrintableType::Tuple { types } => {
            let ghost start = stream@;
            let mut values: Vec<PrintableValue> = Vec::new();
            let mut i: usize = 0;
            proof {
                lemma_type_views(types@);
            }
            while i < types.len()
                invariant
                    0 <= i <= types.len(),
                    start == old(stream)@,
                    typ@ == (TypeView::Tuple { types: type_views(types@) }),
                    type_views(types@).len() == types.len(),
                    forall|k: int|
                        0 <= k < types.len() ==> #[trigger] type_views(types@)[k] == types[k]@,
                    forall|k: int| 0 <= k < types.len() ==> decreases_to!(typ => types[k]),
                    spec_decode_each(start, type_views(types@).take(i as int)) == Ok::<
                        (Seq<ValueView>, Seq<FieldElement>),
                        DecodeError,
                    >((value_views(values@), stream@)),
                decreases types.len() - i,
            {
                let ghost prev = values@;
                let ghost prefix = type_views(types@).take(i + 1);
                proof {
                    assert(prefix.drop_last() =~= type_views(types@).take(i as int));
                    assert(prefix.last() == types[i as int]@);
                }
                match try_decode_value(stream, &types[i]) {
                    Err(e) => {
                        proof {
                            lemma_each_error(start, type_views(types@), i + 1);
                        }
                        return Err(e);
                    },
                    Ok(value) => {
                        values.push(value);
                    },
                }
                proof {
                    assert(values@.drop_last() =~= prev);
                }
                i += 1;
            }
            assert(type_views(types@).take(i as int) =~= type_views(types@));
            Ok(PrintableValue::Vec(values))
        },
        PrintableType::String { length } => {
            if (stream.remaining() as u64) < *length {
                return Err(DecodeError::MissingData);
            }
            let ghost start = stream@;
            let mut elements: Vec<FieldElement> = Vec::new();
            let mut i: u64 = 0;
            while i < *length
                invariant
                    0 <= i <= *length,
                    start == old(stream)@,
                    *length <= start.len(),
                    elements@ == start.take(i as int),
                    stream@ == start.skip(i as int),
                decreases *length - i,
            {
                match stream.next() {
                    Some(f) => {
                        elements.push(f);
                        assert(elements@ =~= start.take(i + 1));
                        assert(stream@ =~= start.skip(i + 1));
                    },
                    None => {
                        return Err(DecodeError::MissingData);
                    },
                }
                i += 1;
            }
            match try_decode_string_value(elements.as_slice()) {
                Ok(text) => Ok(PrintableValue::String(text)),
                Err(e) => Err(e),
            }
        },
        PrintableType::Struct { fields, .. } => {
            let ghost start = stream@;
            let mut entries: Vec<(String, PrintableValue)> = Vec::new();
            let mut i: usize = 0;
            proof {
                lemma_field_views(fields@);
            }
            while i < fields.len()
                invariant
                    0 <= i <= fields.len(),
                    start == old(stream)@,
                    typ@ matches TypeView::Struct { fields: fs, .. } && fs == field_views(fields@),
                    field_views(fields@).len() == fields.len(),
                    forall|k: int|
                        0 <= k < fields.len() ==> #[trigger] field_views(fields@)[k] == (
                            fields[k].0@,
                            fields[k].1@,
                        ),
                    forall|k: int| 0 <= k < fields.len() ==> decreases_to!(typ => fields[k]),
                    spec_decode_fields(start, field_views(fields@).take(i as int)) == Ok::<
                        (Seq<(Seq<char>, ValueView)>, Seq<FieldElement>),
                        DecodeError,
                    >((entry_views(entries@), stream@)),
                decreases fields.len() - i,
            {
                let ghost prefix = field_views(fields@).take(i + 1);
                proof {
                    assert(prefix.drop_last() =~= field_views(fields@).take(i as int));
                    assert(prefix.last() == (fields[i as int].0@, fields[i as int].1@));
                }
                match try_decode_value(stream, &fields[i].1) {
                    Err(e) => {
                        proof {
                            lemma_fields_error(start, field_views(fields@), i + 1);
                        }
                        return Err(e);
                    },
                    Ok(value) => {
                        struct_insert(&mut entries, fields[i].0.clone(), value);
                    },
                }
                i += 1;
            }
            assert(field_views(fields@).take(i as int) =~= field_views(fields@));
            Ok(PrintableValue::Struct(entries))
        },
        _ => Ok(PrintableValue::Opaque),
    }
}

/// Decodes the value of type `typ` at the front of the stream.
pub fn decode_value(field_iterator: &mut FieldIterator, typ: &PrintableType) -> (value:
    PrintableValue)
    requires
        spec_decode(old(field_iterator)@, typ@).is_ok(),
    ensures
        spec_decode(old(field_iterator)@, typ@) == Ok::<
            (ValueView, Seq<FieldElement>),
            DecodeError,
        >((value@, final(field_iterator)@)),
{
    match try_decode_value(field_iterator, typ) {
        Ok(value) => value,
        Err(_) => PrintableValue::Opaque,
    }
}

/// One field element per byte.
pub open spec fn byte_fields(bytes: Seq<u8>) -> Seq<FieldElement> {
    Seq::new(bytes.len(), |i: int| FieldElement { hi: 0, lo: bytes[i] as u128 })
}

/// Whether `v` is a value of the sized type `t`: a field element for a scalar,
/// as many elements as an array's length, a string whose UTF-8 form has the
/// type's length, one entry per field of a struct under the field's name, with
/// no name twice.
pub open spec fn has_type(v: ValueView, t: TypeView) -> bool
    decreases t, 0nat,
{
    match (v, t) {
        (ValueView::Field(_), TypeView::Field)
        | (ValueView::Field(_), TypeView::SignedInteger { .. })
        | (ValueView::Field(_), TypeView::UnsignedInteger { .. })
        | (ValueView::Field(_), TypeView::Boolean) => true,
        (ValueView::Vec(items), TypeView::Array { length: Some(n), typ }) => items.len() == n
            && all_have_type(items, *typ, items.len()),
        (ValueView::Vec(items), TypeView::Tuple { types }) => have_types(items, types),
        (ValueView::String(chars), TypeView::String { length }) => encode_utf8(chars).len()
            == length,
        (ValueView::Struct(entries), TypeView::Struct { fields, .. }) => have_fields(
            entries,
            fields,
        ),
        (ValueView::Opaque, TypeView::FmtString)
        | (ValueView::Opaque, TypeView::Error)
        | (ValueView::Opaque, TypeView::Unit)
        | (ValueView::Opaque, TypeView::Constant)
        | (ValueView::Opaque, TypeView::TraitAsType)
        | (ValueView::Opaque, TypeView::TypeVariable)
        | (ValueView::Opaque, TypeView::NamedGeneric)
        | (ValueView::Opaque, TypeView::Forall)
        | (ValueView::Opaque, TypeView::Function { .. })
        | (ValueView::Opaque, TypeView::MutableReference { .. })
        | (ValueView::Opaque, TypeView::NotConstant) => true,
        _ => false,
    }
}

/// Whether the first `n` of `items` are values of type `t`.
pub open spec fn all_have_type(items: Seq<ValueView>, t: TypeView, n: nat) -> bool
    decreases t, n + 1,
{
    if n == 0 || n > items.len() {
        n == 0
    } else {
        all_have_type(items, t, (n - 1) as nat) && has_type(items[n - 1], t)
    }
}

/// Whether `items` are values of `types`, position by position.
pub open spec fn have_types(items: Seq<ValueView>, types: Seq<TypeView>) -> bool
    decreases types, 0nat,
{
    if types.len() == 0 {
        items.len() == 0
    } else {
        items.len() == types.len() && have_types(items.drop_last(), types.drop_last())
            && has_type(items.last(), types.last())
    }
}

/// Whether `entries` are values of `fields`, position by position and under
/// the fields' names, and no name occurs twice.
pub open spec fn have_fields(
    entries: Seq<(Seq<char>, ValueView)>,
    fields: Seq<(Seq<char>, TypeView)>,
) -> bool
    decreases fields, 0nat,
{
    if fields.len() == 0 {
        entries.len() == 0
    } else {
        &&& entries.len() == fields.len()
        &&& have_fields(entries.drop_last(), fields.drop_last())
        &&& entries.last().0 == fields.last().0
        &&& has_type(entries.last().1, fields.last().1)
        &&& forall|k: int| 0 <= k < entries.len() - 1 ==> (#[trigger] entries[k]).0 != entries.last().0
    }
}

/// The field elements that carry `v` as a value of type `t`.
pub open spec fn spec_encode(v: ValueView, t: TypeView) -> Seq<FieldElement>
    decreases t, 0nat,
{
    match (v, t) {
        (ValueView::Field(f), _) => seq![f],
        (ValueView::Vec(items), TypeView::Array { typ, .. }) => spec_encode_repeat(
            items,
            *typ,
            items.len(),
        ),
        (ValueView::Vec(items), TypeView::Tuple { types }) => spec_encode_each(items, types),
        (ValueView::String(chars), _) => byte_fields(encode_utf8(chars)),
        (ValueView::Struct(entries), TypeView::Struct { fields, .. }) => spec_encode_fields(
            entries,
            fields,
        ),
        _ => Seq::empty(),
    }
}

/// The first `n` of `items`, each encoded as a value of type `t`.
pub open spec fn spec_encode_repeat(items: Seq<ValueView>, t: TypeView, n: nat) -> Seq<
    FieldElement,
>
    decreases t, n + 1,
{
    if n == 0 || n > items.len() {
        Seq::empty()
    } else {
        spec_encode_repeat(items, t, (n - 1) as nat) + spec_encode(items[n - 1], t)
    }
}

/// `items`, each encoded under the type at its position.
pub open spec fn spec_encode_each(items: Seq<ValueView>, types: Seq<TypeView>) -> Seq<
    FieldElement,
>
    decreases types, 0nat,
{
    if types.len() == 0 || items.len() != types.len() {
        Seq::empty()
    } else {
        spec_encode_each(items.drop_last(), types.drop_last()) + spec_encode(
            items.last(),
            types.last(),
        )
    }
}

/// The values of `entries`, each encoded under the type of the field at its position.
pub open spec fn spec_encode_fields(
    entries: Seq<(Seq<char>, ValueView)>,
    fields: Seq<(Seq<char>, TypeView)>,
) -> Seq<FieldElement>
    decreases fields, 0nat,
{
    if fields.len() == 0 || entries.len() != fields.len() {
        Seq::empty()
    } else {
        spec_encode_fields(entries.drop_last(), fields.drop_last()) + spec_encode(
            entries.last().1,
            fields.last().1,
        )
    }
}

/// Decoding what a value was encoded to gives the value back, and leaves what
/// stood behind it in the stream.
pub proof fn lemma_decode_encode(v: ValueView, t: TypeView, rest: Seq<FieldElement>)
    requires
        has_type(v, t),
    ensures
        spec_decode(spec_encode(v, t) + rest, t) == Ok::<
            (ValueView, Seq<FieldElement>),
            DecodeError,
        >((v, rest)),
    decreases t, 0nat,
{
    let s = spec_encode(v, t) + rest;
    match (v, t) {
        (ValueView::Vec(items), TypeView::Array { length: Some(n), typ }) => {
            lemma_decode_encode_repeat(items, *typ, items.len(), rest);
            assert(items.take(items.len() as int) =~= items);
        },
        (ValueView::Vec(items), TypeView::Tuple { types }) => {
            lemma_decode_encode_each(items, types, rest);
        },
        (ValueView::String(chars), TypeView::String { length }) => {
            let bytes = encode_utf8(chars);
            encode_utf8_valid_utf8(chars);
            encode_utf8_decode_utf8(chars);
            assert(s.take(length as int) =~= byte_fields(bytes));
            assert(s.skip(length as int) =~= rest);
            assert(low_bytes(byte_fields(bytes)) =~= bytes);
            assert(forall|i: int|
                0 <= i < byte_fields(bytes).len() ==> is_byte(#[trigger] byte_fields(bytes)[i]));
        },
        (ValueView::Struct(entries), TypeView::Struct { fields, .. }) => {
            lemma_decode_encode_fields(entries, fields, rest);
        },
        (ValueView::Field(f), _) => {
            assert(s[0] == f);
            assert(s.drop_first() =~= rest);
        },
        _ => {
            assert(s =~= rest);
        },
    }
}

/// The same for a run of values of one type.
pub proof fn lemma_decode_encode_repeat(
    items: Seq<ValueView>,
    t: TypeView,
    n: nat,
    rest: Seq<FieldElement>,
)
    requires
        n <= items.len(),
        all_have_type(items, t, n),
    ensures
        spec_decode_repeat(spec_encode_repeat(items, t, n) + rest, t, n) == Ok::<
            (Seq<ValueView>, Seq<FieldElement>),
            DecodeError,
        >((items.take(n as int), rest)),
    decreases t, n + 1,
{
    if n == 0 {
        assert(spec_encode_repeat(items, t, n) + rest =~= rest);
        assert(items.take(0) =~= Seq::<ValueView>::empty());
    } else {
        let last = spec_encode(items[n - 1], t);
        let front = spec_encode_repeat(items, t, (n - 1) as nat);
        assert(spec_encode_repeat(items, t, n) + rest =~= front + (last + rest));
        lemma_decode_encode_repeat(items, t, (n - 1) as nat, last + rest);
        lemma_decode_encode(items[n - 1], t, rest);
        assert(items.take(n - 1).push(items[n - 1]) =~= items.take(n as int));
    }
}

/// The same for values of a list of types.
pub proof fn lemma_decode_encode_each(
    items: Seq<ValueView>,
    types: Seq<TypeView>,
    rest: Seq<FieldElement>,
)
    requires
        have_types(items, types),
    ensures
        spec_decode_each(spec_encode_each(items, types) + rest, types) == Ok::<
            (Seq<ValueView>, Seq<FieldElement>),
            DecodeError,
        >((items, rest)),
    decreases types, 1nat,
{
    if types.len() == 0 {
        assert(spec_encode_each(items, types) + rest =~= rest);
        assert(items =~= Seq::<ValueView>::empty());
    } else {
        let last = spec_encode(items.last(), types.last());
        let front = spec_encode_each(items.drop_last(), types.drop_last());
        assert(spec_encode_each(items, types) + rest =~= front + (last + rest));
        lemma_decode_encode_each(items.drop_last(), types.drop_last(), last + rest);
        lemma_decode_encode(items.last(), types.last(), rest);
        assert(items.drop_last().push(items.last()) =~= items);
    }
}

/// The same for the fields of a struct.
pub proof fn lemma_decode_encode_fields(
    entries: Seq<(Seq<char>, ValueView)>,
    fields: Seq<(Seq<char>, TypeView)>,
    rest: Seq<FieldElement>,
)
    requires
        have_fields(entries, fields),
    ensures
        spec_decode_fields(spec_encode_fields(entries, fields) + rest, fields) == Ok::<
            (Seq<(Seq<char>, ValueView)>, Seq<FieldElement>),
            DecodeError,
        >((entries, rest)),
    decreases fields, 1nat,
{
    if fields.len() == 0 {
        assert(spec_encode_fields(entries, fields) + rest =~= rest);
        assert(entries =~= Seq::<(Seq<char>, ValueView)>::empty());
    } else {
        let last = spec_encode(entries.last().1, fields.last().1);
        let front = spec_encode_fields(entries.drop_last(), fields.drop_last());
        assert(spec_encode_fields(entries, fields) + rest =~= front + (last + rest));
        lemma_decode_encode_fields(entries.drop_last(), fields.drop_last(), last + rest);
        lemma_decode_encode(entries.last().1, fields.last().1, rest);
        lemma_entry_position(entries.drop_last(), fields.last().0);
        let at = entry_position(entries.drop_last(), fields.last().0);
        if at < entries.drop_last().len() {
            assert(entries[at].0 == entries.drop_last()[at].0);
        }
        assert(entries.drop_last().push(entries.last()) =~= entries);
    }
}

/// A value of a type with a count takes as many field elements as the count says.
pub proof fn lemma_encode_length(v: ValueView, t: TypeView)
    requires
        has_type(v, t),
        spec_field_count(t).is_some(),
    ensures
        spec_field_count(t) == Some(spec_encode(v, t).len()),
    decreases t, 0nat,
{
    match (v, t) {
        (ValueView::Vec(items), TypeView::Array { length: Some(n), typ }) => {
            lemma_encode_length_repeat(items, *typ, items.len());
        },
        (ValueView::Vec(items), TypeView::Tuple { types }) => {
            lemma_encode_length_each(items, types);
        },
        (ValueView::Struct(entries), TypeView::Struct { fields, .. }) => {
            lemma_encode_length_fields(entries, fields);
        },
        _ => {},
    }
}

/// The same for a run of values of one type.
pub proof fn lemma_encode_length_repeat(items: Seq<ValueView>, t: TypeView, n: nat)
    requires
        n <= items.len(),
        all_have_type(items, t, n),
        spec_field_count(t).is_some(),
    ensures
        spec_encode_repeat(items, t, n).len() == spec_field_count(t).unwrap() * n,
    decreases t, n + 1,
{
    let c = spec_field_count(t).unwrap();
    if n > 0 {
        lemma_encode_length_repeat(items, t, (n - 1) as nat);
        lemma_encode_length(items[n - 1], t);
        assert(c * (n - 1) + c == c * n) by (nonlinear_arith);
    } else {
        assert(c * 0 == 0) by (nonlinear_arith);
    }
}

/// The same for values of a list of types.
pub proof fn lemma_encode_length_each(items: Seq<ValueView>, types: Seq<TypeView>)
    requires
        have_types(items, types),
        crate::printable::spec_tuple_count(types).is_some(),
    ensures
        crate::printable::spec_tuple_count(types) == Some(spec_encode_each(items, types).len()),
    decreases types, 1nat,
{
    if types.len() > 0 {
        lemma_encode_length_each(items.drop_last(), types.drop_last());
        lemma_encode_length(items.last(), types.last());
    }
}

/// The same for the fields of a struct.
pub proof fn lemma_encode_length_fields(
    entries: Seq<(Seq<char>, ValueView)>,
    fields: Seq<(Seq<char>, TypeView)>,
)
    requires
        have_fields(entries, fields),
        crate::printable::spec_fields_count(fields).is_some(),
    ensures
        crate::printable::spec_fields_count(fields) == Some(
            spec_encode_fields(entries, fields).len(),
        ),
    decreases fields, 1nat,
{
    if fields.len() > 0 {
        lemma_encode_length_fields(entries.drop_last(), fields.drop_last());
        lemma_encode_length(entries.last().1, fields.last().1);
    }
}

/// A value of a type with a count takes exactly that many elements from the
/// stream: what is left is the stream without its first elements.
pub proof fn lemma_decode_consumes(s: Seq<FieldElement>, t: TypeView)
    requires
        spec_decode(s, t).is_ok(),
        spec_field_count(t).is_some(),
    ensures
        spec_field_count(t).unwrap() <= s.len(),
        spec_decode(s, t).unwrap().1 == s.skip(spec_field_count(t).unwrap() as int),
    decreases t, 0nat,
{
    match t {
        TypeView::Array { length: Some(n), typ } => {
            lemma_repeat_consumes(s, *typ, n as nat);
        },
        TypeView::Tuple { types } => {
            lemma_each_consumes(s, types);
        },
        TypeView::Struct { fields, .. } => {
            lemma_fields_consumes(s, fields);
        },
        TypeView::Field
        | TypeView::SignedInteger { .. }
        | TypeView::UnsignedInteger { .. }
        | TypeView::Boolean => {
            assert(s.drop_first() =~= s.skip(1));
        },
        TypeView::String { length } => {},
        _ => {
            assert(s.skip(0) =~= s);
        },
    }
}

/// The same for a run of values of one type.
pub proof fn lemma_repeat_consumes(s: Seq<FieldElement>, t: TypeView, n: nat)
    requires
        spec_decode_repeat(s, t, n).is_ok(),
        spec_field_count(t).is_some(),
    ensures
        spec_field_count(t).unwrap() * n <= s.len(),
        spec_decode_repeat(s, t, n).unwrap().1 == s.skip((spec_field_count(t).unwrap() * n) as int),
    decreases t, n + 1,
{
    let c = spec_field_count(t).unwrap();
    if n == 0 {
        assert(c * 0 == 0) by (nonlinear_arith);
        assert(s.skip(0) =~= s);
    } else {
        lemma_repeat_consumes(s, t, (n - 1) as nat);
        let rest = spec_decode_repeat(s, t, (n - 1) as nat).unwrap().1;
        lemma_decode_consumes(rest, t);
        assert(c * (n - 1) + c == c * n) by (nonlinear_arith);
        assert(s.skip((c * (n - 1)) as int).skip(c as int) =~= s.skip((c * n) as int));
    }
}

/// The same for values of a list of types.
pub proof fn lemma_each_consumes(s: Seq<FieldElement>, types: Seq<TypeView>)
    requires
        spec_decode_each(s, types).is_ok(),
        crate::printable::spec_tuple_count(types).is_some(),
    ensures
        crate::printable::spec_tuple_count(types).unwrap() <= s.len(),
        spec_decode_each(s, types).unwrap().1 == s.skip(
            crate::printable::spec_tuple_count(types).unwrap() as int,
        ),
    decreases types, 1nat,
{
    if types.len() == 0 {
        assert(s.skip(0) =~= s);
    } else {
        lemma_each_consumes(s, types.drop_last());
        let rest = spec_decode_each(s, types.drop_last()).unwrap().1;
        lemma_decode_consumes(rest, types.last());
        let a = crate::printable::spec_tuple_count(types.drop_last()).unwrap();
        let b = spec_field_count(types.last()).unwrap();
        assert(s.skip(a as int).skip(b as int) =~= s.skip((a + b) as int));
    }
}

/// The same for the fields of a struct.
pub proof fn lemma_fields_consumes(s: Seq<FieldElement>, fields: Seq<(Seq<char>, TypeView)>)
    requires
        spec_decode_fields(s, fields).is_ok(),
        crate::printable::spec_fields_count(fields).is_some(),
    ensures
        crate::printable::spec_fields_count(fields).unwrap() <= s.len(),
        spec_decode_fields(s, fields).unwrap().1 == s.skip(
            crate::printable::spec_fields_count(fields).unwrap() as int,
        ),
    decreases fields, 1nat,
{
    if fields.len() == 0 {
        assert(s.skip(0) =~= s);
    } else {
        lemma_fields_consumes(s, fields.drop_last());
        let rest = spec_decode_fields(s, fields.drop_last()).unwrap().1;
        lemma_decode_consumes(rest, fields.last().1);
        let a = crate::printable::spec_fields_count(fields.drop_last()).unwrap();
        let b = spec_field_count(fields.last().1).unwrap();
        assert(s.skip(a as int).skip(b as int) =~= s.skip((a + b) as int));
    }
}

/// The round trip of a value through the stream: a value of a type with a
/// count is encoded in that many elements, and decoding them gives the value.
pub proof fn lemma_round_trip(v: ValueView, t: TypeView)
    requires
        has_type(v, t),
        spec_field_count(t).is_some(),
    ensures
        spec_encode(v, t).len() == spec_field_count(t).unwrap(),
        spec_decode(spec_encode(v, t), t) == Ok::<(ValueView, Seq<FieldElement>), DecodeError>(
            (v, Seq::empty()),
        ),
{
    lemma_encode_length(v, t);
    lemma_decode_encode(v, t, Seq::empty());
    assert(spec_encode(v, t) + Seq::<FieldElement>::empty() =~= spec_encode(v, t));
}

fn push_encoded(out: &mut Vec<FieldElement>, value: &PrintableValue, typ: &PrintableType)
    ensures
        final(out)@ == old(out)@ + spec_encode(value@, typ@),
    decreases typ, 0nat,
{
    match (value, typ) {
        (PrintableValue::Field(f), _) => {
            out.push(*f);
            assert(out@ =~= old(out)@ + seq![*f]);
        },
        (PrintableValue::Vec(items), PrintableType::Array { typ: element, .. }) => {
            let ghost models = value_views(items@);
            proof {
                lemma_value_views(items@);
                assert(out@ + Seq::<FieldElement>::empty() =~= out@);
            }
            let mut i: usize = 0;
            while i < items.len()
                invariant
                    0 <= i <= items.len(),
                    models == value_views(items@),
                    models.len() == items.len(),
                    forall|k: int| 0 <= k < items.len() ==> #[trigger] models[k] == items[k]@,
                    decreases_to!(typ => element),
                    out@ == old(out)@ + spec_encode_repeat(models, element@, i as nat),
                decreases items.len() - i,
            {
                push_encoded(out, &items[i], &**element);
                assert(out@ =~= old(out)@ + spec_encode_repeat(models, element@, (i + 1) as nat));
                i += 1;
            }
        },
        (PrintableValue::Vec(items), PrintableType::Tuple { types }) => {
            let ghost models = value_views(items@);
            let ghost type_models = type_views(types@);
            proof {
                lemma_value_views(items@);
                lemma_type_views(types@);
            }
            if items.len() != types.len() {
                assert(out@ + Seq::<FieldElement>::empty() =~= out@);
                return ;
            }
            let mut i: usize = 0;
            assert(out@ + Seq::<FieldElement>::empty() =~= out@);
            assert(models.take(0) =~= Seq::<ValueView>::empty());
            assert(type_models.take(0) =~= Seq::<TypeView>::empty());
            while i < items.len()
                invariant
                    0 <= i <= items.len(),
                    items.len() == types.len(),
                    models == value_views(items@),
                    type_models == type_views(types@),
                    models.len() == items.len(),
                    type_models.len() == types.len(),
                    forall|k: int| 0 <= k < items.len() ==> #[trigger] models[k] == items[k]@,
                    forall|k: int| 0 <= k < types.len() ==> #[trigger] type_models[k] == types[k]@,
                    forall|k: int| 0 <= k < types.len() ==> decreases_to!(typ => types[k]),
                    out@ == old(out)@ + spec_encode_each(
                        models.take(i as int),
                        type_models.take(i as int),
                    ),
                decreases items.len() - i,
            {
                push_encoded(out, &items[i], &types[i]);
                proof {
                    assert(models.take(i + 1).drop_last() =~= models.take(i as int));
                    assert(type_models.take(i + 1).drop_last() =~= type_models.take(i as int));
                    assert(out@ =~= old(out)@ + spec_encode_each(
                        models.take(i + 1),
                        type_models.take(i + 1),
                    ));
                }
                i += 1;
            }
            assert(models.take(i as int) =~= models);
            assert(type_models.take(i as int) =~= type_models);
        },
        (PrintableValue::String(text), _) => {
            let bytes = text.as_str().as_bytes();
            let mut i: usize = 0;
            assert(out@ + Seq::<FieldElement>::empty() =~= out@);
            while i < bytes.len()
                invariant
                    0 <= i <= bytes.len(),
                    bytes@ == encode_utf8(text@),
                    out@ == old(out)@ + byte_fields(bytes@).take(i as int),
                decreases bytes.len() - i,
            {
                out.push(FieldElement { hi: 0, lo: bytes[i] as u128 });
                assert(byte_fields(bytes@).take(i + 1) =~= byte_fields(bytes@).take(i as int).push(
                    FieldElement { hi: 0, lo: bytes@[i as int] as u128 },
                ));
                i += 1;
            }
            assert(byte_fields(bytes@).take(i as int) =~= byte_fields(bytes@));
        },
        (PrintableValue::Struct(entries), PrintableType::Struct { fields, .. }) => {
            let ghost models = entry_views(entries@);
            let ghost field_models = field_views(fields@);
            proof {
                crate::value::lemma_entry_views(entries@);
                lemma_field_views(fields@);
            }
            if entries.len() != fields.len() {
                assert(out@ + Seq::<FieldElement>::empty() =~= out@);
                return ;
            }
            let mut i: usize = 0;
            assert(out@ + Seq::<FieldElement>::empty() =~= out@);
            assert(models.take(0) =~= Seq::<(Seq<char>, ValueView)>::empty());
            assert(field_models.take(0) =~= Seq::<(Seq<char>, TypeView)>::empty());
            while i < entries.len()
                invariant
                    0 <= i <= entries.len(),
                    entries.len() == fields.len(),
                    models == entry_views(entries@),
                    field_models == field_views(fields@),
                    models.len() == entries.len(),
                    field_models.len() == fields.len(),
                    forall|k: int|
                        0 <= k < entries.len() ==> #[trigger] models[k] == (
                            entries[k].0@,
                            entries[k].1@,
                        ),
                    forall|k: int|
                        0 <= k < fields.len() ==> #[trigger] field_models[k] == (
                            fields[k].0@,
                            fields[k].1@,
                        ),
                    forall|k: int| 0 <= k < fields.len() ==> decreases_to!(typ => fields[k]),
                    out@ == old(out)@ + spec_encode_fields(
                        models.take(i as int),
                        field_models.take(i as int),
                    ),
                decreases entries.len() - i,
            {
                push_encoded(out, &entries[i].1, &fields[i].1);
                proof {
                    assert(models.take(i + 1).drop_last() =~= models.take(i as int));
                    assert(field_models.take(i + 1).drop_last() =~= field_models.take(i as int));
                    assert(out@ =~= old(out)@ + spec_encode_fields(
                        models.take(i + 1),
                        field_models.take(i + 1),
                    ));
                }
                i += 1;
            }
            assert(models.take(i as int) =~= models);
            assert(field_models.take(i as int) =~= field_models);
        },
        _ => {
            assert(out@ + Seq::<FieldElement>::empty() =~= out@);
        },
    }
}

/// The field elements that carry a value of a type, as the program lays
/// them out: the elements of an aggregate one behind the other, a string as
/// its bytes.
pub fn encode_value(value: &PrintableValue, typ: &PrintableType) -> (fields: Vec<FieldElement>)
    ensures
        fields@ == spec_encode(value@, typ@),
{
    let mut fields: Vec<FieldElement> = Vec::new();
    push_encoded(&mut fields, value, typ);
    assert(Seq::<FieldElement>::empty() + spec_encode(value@, typ@) =~= spec_encode(value@, typ@));
    fields
}

} // verus!
