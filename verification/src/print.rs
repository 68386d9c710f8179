//! The inputs of a print call of the running program: the values, the
//! descriptions of their types, and whether there is a format string.

use crate::decode::{
    DecodeError, FieldIterator, spec_decode, spec_decode_string, try_decode_string_value,
    try_decode_value,
};
use crate::field::FieldElement;
use crate::foreign_calls::flatten_inputs;
use crate::format::PrintableValueDisplay;
use crate::printable::{CountClass, PrintableType, spec_field_count, TypeView};
use crate::value::{PrintableValue, ValueView};
use vstd::prelude::*;
use vstd::slice::slice_to_vec;

verus! {

/// An input or output of a foreign call: one value or several.
#[derive(Debug, PartialEq, Eq)]
pub enum ForeignCallParam {
    Single(FieldElement),
    Array(Vec<FieldElement>),
}

impl ForeignCallParam {
    /// The values of the parameter.
    pub open spec fn spec_values(&self) -> Seq<FieldElement> {
        match self {
            ForeignCallParam::Single(v) => seq![*v],
            ForeignCallParam::Array(vs) => vs@,
        }
    }

    /// The values of the parameter.
    pub fn values(&self) -> (vs: Vec<FieldElement>)
        ensures
            vs@ == self.spec_values(),
    {
        match self {
            ForeignCallParam::Single(v) => {
                let mut vs: Vec<FieldElement> = Vec::new();
                vs.push(*v);
                assert(vs@ =~= seq![*v]);
                vs
            },
            ForeignCallParam::Array(values) => slice_to_vec(values.as_slice()),
        }
    }

    /// The value of a parameter that is one value.
    pub fn single(&self) -> (v: Option<FieldElement>)
        ensures
            v == match self {
                ForeignCallParam::Single(x) => Some(*x),
                ForeignCallParam::Array(_) => None,
            },
    {
        match self {
            ForeignCallParam::Single(x) => Some(*x),
            ForeignCallParam::Array(_) => None,
        }
    }
}

/// The values of each parameter.
pub open spec fn params_view(params: Seq<ForeignCallParam>) -> Seq<Seq<FieldElement>> {
    Seq::new(params.len(), |i: int| params[i].spec_values())
}

/// The values of each parameter, as lists.
pub fn plain_inputs(params: &Vec<ForeignCallParam>) -> (inputs: Vec<Vec<FieldElement>>)
    ensures
        crate::foreign_calls::inputs_view(inputs@) == params_view(params@),
{
    let mut inputs: Vec<Vec<FieldElement>> = Vec::new();
    let mut i: usize = 0;
    while i < params.len()
        invariant
            0 <= i <= params.len(),
            inputs.len() == i,
            forall|k: int| 0 <= k < i ==> #[trigger] inputs[k]@ == params[k].spec_values(),
        decreases params.len() - i,
    {
        inputs.push(params[i].values());
        i += 1;
    }
    assert(crate::foreign_calls::inputs_view(inputs@) =~= params_view(params@));
    inputs
}

/// Why the inputs of a print call cannot be read.
#[derive(Clone, Copy, Debug, PartialEq, Eq, Structural)]
pub enum PrintError {
    /// An input is missing, or one that must be a single value is not.
    MissingInputs,
    /// A text among the inputs does not decode.
    BadText(DecodeError),
    /// A value does not decode under its type.
    BadValue(DecodeError),
    /// A value of a format string is of a type without a fixed size.
    Unsized,
}

/// The inputs of a print call, taken apart.
#[derive(Debug, PartialEq, Eq)]
pub enum PrintFrame {
    /// A value: the description of its type, and its field elements.
    Plain { type_description: String, fields: Vec<FieldElement> },
    /// A format string: the message, the number of values, and the inputs
    /// that hold the values first and the descriptions of their types last.
    Formatted { message: String, num_values: usize, inputs: Vec<Vec<FieldElement>> },
}

/// The model of a [`PrintFrame`].
pub enum PrintFrameView {
    Plain { type_description: Seq<char>, fields: Seq<FieldElement> },
    Formatted { message: Seq<char>, num_values: usize, inputs: Seq<Seq<FieldElement>> },
}

impl View for PrintFrame {
    type V = PrintFrameView;

    open spec fn view(&self) -> PrintFrameView {
        match self {
            PrintFrame::Plain { type_description, fields } => PrintFrameView::Plain {
                type_description: type_description@,
                fields: fields@,
            },
            PrintFrame::Formatted { message, num_values, inputs } => PrintFrameView::Formatted {
                message: message@,
                num_values: *num_values,
                inputs: crate::foreign_calls::inputs_view(inputs@),
            },
        }
    }
}

/// The inputs of a print call, taken apart. The last input tells whether
/// there is a format string. Without one, the input before it describes the
/// type and those before hold the value. With one, the first input is the
/// message, the second the number of values, and the rest are the values
/// and the descriptions of their types.
pub open spec fn spec_frame(params: Seq<ForeignCallParam>) -> Result<PrintFrameView, PrintError> {
    if params.len() == 0 {
        Err(PrintError::MissingInputs)
    } else {
        match params.last() {
            ForeignCallParam::Array(_) => Err(PrintError::MissingInputs),
            ForeignCallParam::Single(flag) => {
                let rest = params.drop_last();
                if flag.hi == 0 && flag.lo == 1 {
                    if rest.len() < 2 {
                        Err(PrintError::MissingInputs)
                    } else {
                        match (spec_decode_string(rest[0].spec_values()), rest[1]) {
                            (Err(e), _) => Err(PrintError::BadText(e)),
                            (Ok(_), ForeignCallParam::Array(_)) => Err(PrintError::MissingInputs),
                            (Ok(message), ForeignCallParam::Single(count)) => {
                                let num_values = (count.lo as nat) % 0x1_0000_0000;
                                if num_values > rest.len() - 2 {
                                    Err(PrintError::MissingInputs)
                                } else {
                                    Ok(
                                        PrintFrameView::Formatted {
                                            message,
                                            num_values: num_values as usize,
                                            inputs: params_view(rest.skip(2)),
                                        },
                                    )
                                }
                            },
                        }
                    }
                } else {
                    if rest.len() == 0 {
                        Err(PrintError::MissingInputs)
                    } else {
                        match spec_decode_string(rest.last().spec_values()) {
                            Err(e) => Err(PrintError::BadText(e)),
                            Ok(type_description) => Ok(
                                PrintFrameView::Plain {
                                    type_description,
                                    fields: crate::foreign_calls::flatten(
                                        params_view(params),
                                        0,
                                        (params.len() - 2) as nat,
                                    ),
                                },
                            ),
                        }
                    }
                }
            },
        }
    }
}

/// Takes the inputs of a print call apart.
pub fn frame_print_call(params: &Vec<ForeignCallParam>) -> (frame: Result<PrintFrame, PrintError>)
    ensures
        match (frame, spec_frame(params@)) {
            (Ok(f), Ok(expected)) => f@ == expected,
            (Err(e), Err(expected)) => e == expected,
            _ => false,
        },
{
    if params.len() == 0 {
        return Err(PrintError::MissingInputs);
    }
    let flag = match params[params.len() - 1].single() {
        None => {
            return Err(PrintError::MissingInputs);
        },
        Some(flag) => flag,
    };
    let rest_len = params.len() - 1;
    let inputs = plain_inputs(params);
    let ghost rest = params@.drop_last();
    proof {
        assert(params_view(rest) =~= params_view(params@).take(rest_len as int));
        assert(crate::foreign_calls::inputs_view(inputs@).len() == params_view(params@).len());
        assert forall|k: int| 0 <= k < inputs.len() implies #[trigger] inputs[k]@
            == params[k].spec_values() by {
            assert(crate::foreign_calls::inputs_view(inputs@)[k] == params_view(params@)[k]);
        }
    }
    if flag.hi == 0 && flag.lo == 1 {
        if rest_len < 2 {
            return Err(PrintError::MissingInputs);
        }
        assert(rest[0] == params[0]);
        assert(rest[1] == params[1]);
        let message = match try_decode_string_value(inputs[0].as_slice()) {
            Err(e) => {
                return Err(PrintError::BadText(e));
            },
            Ok(message) => message,
        };
        let count = match params[1].single() {
            None => {
                return Err(PrintError::MissingInputs);
            },
            Some(count) => count,
        };
        let narrowed = (count.lo % 0x1_0000_0000u128) as u32;
        if narrowed as u128 > (rest_len - 2) as u128 {
            return Err(PrintError::MissingInputs);
        }
        let mut values: Vec<Vec<FieldElement>> = Vec::new();
        let mut i: usize = 2;
        while i < rest_len
            invariant
                2 <= i <= rest_len,
                rest_len == params.len() - 1,
                rest == params@.drop_last(),
                values.len() == i - 2,
                forall|k: int| 0 <= k < values.len() ==> #[trigger] values[k]@ == params[k + 2].spec_values(),
            decreases rest_len - i,
        {
            values.push(params[i].values());
            i += 1;
        }
        assert(crate::foreign_calls::inputs_view(values@) =~= params_view(rest.skip(2)));
        Ok(PrintFrame::Formatted { message, num_values: narrowed as usize, inputs: values })
    } else {
        if rest_len == 0 {
            return Err(PrintError::MissingInputs);
        }
        assert(rest.last() == params[rest_len - 1]);
        let type_description = match try_decode_string_value(inputs[rest_len - 1].as_slice()) {
            Err(e) => {
                return Err(PrintError::BadText(e));
            },
            Ok(text) => text,
        };
        let fields = flatten_inputs(&inputs, 0, rest_len - 1);
        Ok(PrintFrame::Plain { type_description, fields })
    }
}

/// The value to show for a plain print call, once its type is known: the
/// fields decoded under the type.
pub fn plain_display(fields: Vec<FieldElement>, typ: PrintableType) -> (display: Result<
    PrintableValueDisplay,
    PrintError,
>)
    ensures
        match (display, spec_decode(fields@, typ@)) {
            (Ok(PrintableValueDisplay::Plain(value, shown_type)), Ok((expected, _))) => value@
                == expected && shown_type@ == typ@,
            (Err(PrintError::BadValue(e)), Err(expected)) => e == expected,
            _ => false,
        },
{
    let mut stream = FieldIterator::new(fields);
    match try_decode_value(&mut stream, &typ) {
        Ok(value) => Ok(PrintableValueDisplay::Plain(value, typ)),
        Err(e) => Err(PrintError::BadValue(e)),
    }
}

/// The fields of the value at position `i` of a format string: for an array
/// or a string the input at that position, else as many inputs from that
/// position as the type counts fields. A count beyond 32 bits is more than
/// there are inputs.
pub open spec fn value_fields(inputs: Seq<Seq<FieldElement>>, i: nat, t: TypeView) -> Result<
    Seq<FieldElement>,
    PrintError,
> {
    if t is Array || t is String {
        if i < inputs.len() {
            Ok(inputs[i as int])
        } else {
            Err(PrintError::MissingInputs)
        }
    } else {
        match spec_field_count(t) {
            None => Err(PrintError::Unsized),
            Some(size) => if size <= u32::MAX && i + size <= inputs.len() {
                Ok(crate::foreign_calls::flatten(inputs, i, i + size))
            } else {
                Err(PrintError::MissingInputs)
            },
        }
    }
}

/// The first `n` values of a format string, each read from the inputs at its
/// position and decoded under its type.
pub open spec fn spec_formatted(
    inputs: Seq<Seq<FieldElement>>,
    types: Seq<PrintableType>,
    n: nat,
) -> Result<Seq<(ValueView, TypeView)>, PrintError>
    decreases n,
{
    if n == 0 || n > types.len() {
        Ok(Seq::empty())
    } else {
        match spec_formatted(inputs, types, (n - 1) as nat) {
            Err(e) => Err(e),
            Ok(values) => match value_fields(inputs, (n - 1) as nat, types[n - 1]@) {
                Err(e) => Err(e),
                Ok(fields) => match spec_decode(fields, types[n - 1]@) {
                    Err(e) => Err(PrintError::BadValue(e)),
                    Ok((value, _)) => Ok(values.push((value, types[n - 1]@))),
                },
            },
        }
    }
}

/// An error among the first values is the error of all of them.
pub proof fn lemma_formatted_error(
    inputs: Seq<Seq<FieldElement>>,
    types: Seq<PrintableType>,
    k: nat,
    n: nat,
)
    requires
        k <= n <= types.len(),
        spec_formatted(inputs, types, k).is_err(),
    ensures
        spec_formatted(inputs, types, n) == spec_formatted(inputs, types, k),
    decreases n,
{
    if k < n {
        lemma_formatted_error(inputs, types, k, (n - 1) as nat);
    }
}

/// The models of the values of a format string.
pub open spec fn pairs_view(values: Seq<(PrintableValue, PrintableType)>) -> Seq<
    (ValueView, TypeView),
> {
    Seq::new(values.len(), |i: int| (values[i].0@, values[i].1@))
}

/// The value to show for a print call with a format string, once the types
/// of its values are known.
pub fn formatted_display(message: String, types: Vec<PrintableType>, inputs: &Vec<Vec<FieldElement>>) -> (display:
    Result<PrintableValueDisplay, PrintError>)
    ensures
        match (
            display,
            spec_formatted(crate::foreign_calls::inputs_view(inputs@), types@, types@.len()),
        ) {
            (Ok(PrintableValueDisplay::FmtString(template, values)), Ok(expected)) => template@
                == message@ && pairs_view(values@) == expected,
            (Err(e), Err(expected)) => e == expected,
            _ => false,
        },
{
    let mut values: Vec<(PrintableValue, PrintableType)> = Vec::new();
    let ghost all = crate::foreign_calls::inputs_view(inputs@);
    let mut i: usize = 0;
    assert(pairs_view(values@) =~= Seq::<(ValueView, TypeView)>::empty());
    while i < types.len()
        invariant
            0 <= i <= types.len(),
            all == crate::foreign_calls::inputs_view(inputs@),
            spec_formatted(all, types@, i as nat) == Ok::<Seq<(ValueView, TypeView)>, PrintError>(
                pairs_view(values@),
            ),
        decreases types.len() - i,
    {
        let typ = &types[i];
        let by_position = match typ {
            PrintableType::Array { .. } => true,
            PrintableType::String { .. } => true,
            _ => false,
        };
        let fields = if by_position {
            if i < inputs.len() {
                assert(all[i as int] == inputs[i as int]@);
                slice_to_vec(inputs[i].as_slice())
            } else {
                proof {
                    lemma_formatted_error(all, types@, (i + 1) as nat, types@.len());
                }
                return Err(PrintError::MissingInputs);
            }
        } else {
            match typ.count_class() {
                CountClass::Unsized => {
                    proof {
                        lemma_formatted_error(all, types@, (i + 1) as nat, types@.len());
                    }
                    return Err(PrintError::Unsized);
                },
                CountClass::Large => {
                    proof {
                        lemma_formatted_error(all, types@, (i + 1) as nat, types@.len());
                    }
                    return Err(PrintError::MissingInputs);
                },
                CountClass::Exact(size) => {
                    if i as u128 + size as u128 <= inputs.len() as u128 {
                        flatten_inputs(inputs, i, i + size as usize)
                    } else {
                        proof {
                            lemma_formatted_error(all, types@, (i + 1) as nat, types@.len());
                        }
                        return Err(PrintError::MissingInputs);
                    }
                },
            }
        };
        let mut stream = FieldIterator::new(fields);
        match try_decode_value(&mut stream, typ) {
            Err(e) => {
                proof {
                    lemma_formatted_error(all, types@, (i + 1) as nat, types@.len());
                }
                return Err(PrintError::BadValue(e));
            },
            Ok(value) => {
                let ghost before = values@;
                values.push((value, typ.clone()));
                assert(pairs_view(values@) =~= pairs_view(before).push((values@.last().0@, typ@)));
            },
        }
        i += 1;
    }
    Ok(PrintableValueDisplay::FmtString(message, values))
}

} // verus!
