//! Text for printable values: how a value of a type is shown, and how the
//! placeholders of a format string are filled.

use crate::decode::string_from_utf8;
use crate::field::FieldElement;
use crate::printable::{
    field_views, lemma_field_views, lemma_type_views, PrintableType, type_views, TypeView,
};
use crate::text::{decimal, digit_char, push_char, push_decimal, push_str};
use crate::value::{
    entry_position, entry_views, find_entry, lemma_entry_position, lemma_entry_views,
    lemma_value_views, PrintableValue, value_views, ValueView,
};
use vstd::arithmetic::power2::{
    lemma2_to64, lemma2_to64_rest, lemma_pow2_adds, lemma_pow2_pos,
    lemma_pow2_strictly_increases, lemma_pow2_unfold, pow2,
};
use vstd::prelude::*;
use vstd::utf8::{decode_utf8, encode_utf8, valid_utf8};

verus! {

/// `n` in hexadecimal, in exactly `width` digits: the low digits where there are more.
pub open spec fn hex_fixed(n: nat, width: nat) -> Seq<char>
    decreases width,
{
    if width == 0 {
        Seq::empty()
    } else {
        hex_fixed(n / 16, (width - 1) as nat).push(digit_char(n % 16))
    }
}

/// `s` without the zeros at its front.
pub open spec fn trim_zeros(s: Seq<char>) -> Seq<char>
    decreases s.len(),
{
    if s.len() > 0 && s[0] == '0' {
        trim_zeros(s.drop_first())
    } else {
        s
    }
}

/// The 64 hexadecimal digits of a field element.
pub open spec fn field_hex(f: FieldElement) -> Seq<char> {
    hex_fixed(f.hi as nat, 32) + hex_fixed(f.lo as nat, 32)
}

/// A field element as text: `0x`, then its hexadecimal digits without
/// leading zeros, with one zero before them where their number is odd; zero
/// is `0x00`.
pub open spec fn spec_format_field(f: FieldElement) -> Seq<char> {
    if f.hi == 0 && f.lo == 0 {
        "0x00"@
    } else {
        let digits = trim_zeros(field_hex(f));
        if digits.len() % 2 != 0 {
            "0x"@ + seq!['0'] + digits
        } else {
            "0x"@ + digits
        }
    }
}

fn hex_digit(d: u8) -> (c: char)
    requires
        d < 16,
    ensures
        c == digit_char(d as nat),
{
    if d == 0 {
        '0'
    } else if d == 1 {
        '1'
    } else if d == 2 {
        '2'
    } else if d == 3 {
        '3'
    } else if d == 4 {
        '4'
    } else if d == 5 {
        '5'
    } else if d == 6 {
        '6'
    } else if d == 7 {
        '7'
    } else if d == 8 {
        '8'
    } else if d == 9 {
        '9'
    } else if d == 10 {
        'a'
    } else if d == 11 {
        'b'
    } else if d == 12 {
        'c'
    } else if d == 13 {
        'd'
    } else if d == 14 {
        'e'
    } else {
        'f'
    }
}

fn push_hex_fixed(digits: &mut Vec<char>, n: u128, width: usize)
    ensures
        final(digits)@ == old(digits)@ + hex_fixed(n as nat, width as nat),
    decreases width,
{
    if width == 0 {
        assert(digits@ + Seq::<char>::empty() =~= digits@);
    } else {
        push_hex_fixed(digits, n / 16, width - 1);
        digits.push(hex_digit((n % 16) as u8));
        assert(digits@ =~= old(digits)@ + hex_fixed(n as nat, width as nat));
    }
}

/// A field element as text.
pub fn format_field_string(field: FieldElement) -> (text: String)
    ensures
        text@ == spec_format_field(field),
{
    if field.hi == 0 && field.lo == 0 {
        return "0x00".to_owned();
    }
    let mut digits: Vec<char> = Vec::new();
    push_hex_fixed(&mut digits, field.hi, 32);
    push_hex_fixed(&mut digits, field.lo, 32);
    assert(digits@ =~= field_hex(field));
    let mut start: usize = 0;
    assert(digits@.skip(0) =~= digits@);
    while start < digits.len() && digits[start] == '0'
        invariant
            0 <= start <= digits.len(),
            trim_zeros(digits@) == trim_zeros(digits@.skip(start as int)),
        decreases digits.len() - start,
    {
        proof {
            assert(digits@.skip(start as int)[0] == digits[start as int]);
            assert(digits@.skip(start as int).drop_first() =~= digits@.skip(start + 1));
        }
        start += 1;
    }
    proof {
        if start < digits.len() {
            assert(digits@.skip(start as int)[0] == digits[start as int]);
        }
        assert(trim_zeros(digits@.skip(start as int)) == digits@.skip(start as int));
    }
    let mut text = "0x".to_owned();
    if (digits.len() - start) % 2 != 0 {
        push_char(&mut text, '0');
    }
    let mut i: usize = start;
    let ghost head = text@;
    assert(digits@.subrange(start as int, start as int) =~= Seq::<char>::empty());
    assert(head + Seq::<char>::empty() =~= head);
    while i < digits.len()
        invariant
            start <= i <= digits.len(),
            text@ == head + digits@.subrange(start as int, i as int),
        decreases digits.len() - i,
    {
        push_char(&mut text, digits[i]);
        assert(digits@.subrange(start as int, i + 1) =~= digits@.subrange(
            start as int,
            i as int,
        ).push(digits[i as int]));
        i += 1;
    }
    assert(digits@.subrange(start as int, digits.len() as int) =~= digits@.skip(start as int));
    text
}

/// The width in which an integer is read: at most 128 bits.
pub open spec fn capped_width(width: u32) -> nat {
    if width > 128 {
        128
    } else {
        width as nat
    }
}

/// The value of a field element as an unsigned integer of `width` bits: its
/// low bits.
pub open spec fn unsigned_value(f: FieldElement, width: u32) -> nat {
    (f.lo as nat) % pow2(capped_width(width))
}

/// An unsigned integer as text: decimal.
pub open spec fn spec_format_unsigned(f: FieldElement, width: u32) -> Seq<char> {
    decimal(unsigned_value(f, width))
}

/// A signed integer as text: the low bits in two's complement, decimal, with
/// a minus sign where the top bit is set.
pub open spec fn spec_format_signed(f: FieldElement, width: u32) -> Seq<char> {
    let w = capped_width(width);
    let u = unsigned_value(f, width);
    if w > 0 && u >= pow2((w - 1) as nat) {
        seq!['-'] + decimal((pow2(w) - u) as nat)
    } else {
        decimal(u)
    }
}

/// Two to the power 127 and two to the power 128.
pub proof fn lemma_pow2_128()
    ensures
        pow2(127) == 0x8000_0000_0000_0000_0000_0000_0000_0000,
        pow2(128) == 0x1_0000_0000_0000_0000_0000_0000_0000_0000,
{
    lemma2_to64();
    lemma2_to64_rest();
    lemma_pow2_adds(64, 63);
    lemma_pow2_adds(64, 64);
    assert(0x10000000000000000 * 0x8000000000000000
        == 0x8000_0000_0000_0000_0000_0000_0000_0000int) by (nonlinear_arith);
    assert(0x10000000000000000 * 0x10000000000000000
        == 0x1_0000_0000_0000_0000_0000_0000_0000_0000int) by (nonlinear_arith);
}

fn power_of_two(e: u32) -> (p: u128)
    requires
        e <= 127,
    ensures
        p == pow2(e as nat),
{
    let mut p: u128 = 1;
    let mut i: u32 = 0;
    proof {
        lemma2_to64();
    }
    while i < e
        invariant
            0 <= i <= e <= 127,
            p == pow2(i as nat),
        decreases e - i,
    {
        proof {
            lemma_pow2_unfold((i + 1) as nat);
            lemma_pow2_128();
            if i + 1 < 127 {
                lemma_pow2_strictly_increases((i + 1) as nat, 127);
            }
        }
        p = p * 2;
        i += 1;
    }
    p
}

fn low_bits(f: FieldElement, width: u32) -> (u: u128)
    ensures
        u == unsigned_value(f, width),
{
    if width >= 128 {
        proof {
            lemma_pow2_128();
            assert((f.lo as nat) % 0x1_0000_0000_0000_0000_0000_0000_0000_0000nat == f.lo);
        }
        f.lo
    } else {
        let m = power_of_two(width);
        proof {
            lemma_pow2_pos(width as nat);
        }
        f.lo % m
    }
}

fn push_unsigned(text: &mut String, f: FieldElement, width: u32)
    ensures
        final(text)@ == old(text)@ + spec_format_unsigned(f, width),
{
    push_decimal(text, low_bits(f, width));
}

fn push_signed(text: &mut String, f: FieldElement, width: u32)
    ensures
        final(text)@ == old(text)@ + spec_format_signed(f, width),
{
    let u = low_bits(f, width);
    if width == 0 {
        push_decimal(text, u);
        return ;
    }
    let w: u32 = if width > 128 {
        128
    } else {
        width
    };
    let half = power_of_two(w - 1);
    proof {
        lemma_pow2_unfold(w as nat);
        lemma_pow2_128();
        lemma_pow2_pos(w as nat);
    }
    if u >= half {
        // 2^w - u, where 2^w is twice `half`
        let magnitude = half - (u - half);
        push_char(text, '-');
        push_decimal(text, magnitude);
        assert(text@ =~= old(text)@ + spec_format_signed(f, width));
    } else {
        push_decimal(text, u);
    }
}

/// The names of `arguments`, each but the first behind a comma and a space.
pub open spec fn joined_names(arguments: Seq<(Seq<char>, TypeView)>, n: nat) -> Seq<char>
    decreases n,
{
    if n == 0 || n > arguments.len() {
        Seq::empty()
    } else if n == 1 {
        arguments[0].0
    } else {
        joined_names(arguments, (n - 1) as nat) + ", "@ + arguments[n - 1].0
    }
}

/// A value of a type as text. A combination of value and type that has no
/// text of its own is shown as `<<opaque>>`.
pub open spec fn render(v: ValueView, t: TypeView) -> Seq<char>
    decreases t, 0nat,
{
    match (v, t) {
        (ValueView::Field(f), TypeView::Field) => spec_format_field(f),
        (ValueView::Field(f), TypeView::UnsignedInteger { width }) => spec_format_unsigned(
            f,
            width,
        ),
        (ValueView::Field(f), TypeView::SignedInteger { width }) => spec_format_signed(f, width),
        (ValueView::Field(f), TypeView::Boolean) => if f.hi == 0 && f.lo == 1 {
            "true"@
        } else {
            "false"@
        },
        (ValueView::Field(_), TypeView::Function { name, arguments }) => "<<fn "@ + name + "("@
            + joined_names(arguments, arguments.len()) + ")>>"@,
        (_, TypeView::MutableReference { .. }) => "<<mutable ref>>"@,
        (ValueView::Vec(items), TypeView::Array { typ, .. }) => "["@ + render_items(
            items,
            *typ,
            items.len(),
        ) + "]"@,
        (ValueView::String(s), TypeView::String { .. }) => s,
        (ValueView::Struct(entries), TypeView::Struct { name, fields }) => name + " { "@
            + render_fields(entries, fields, fields.len()) + " }"@,
        (ValueView::Vec(items), TypeView::Tuple { types }) => "("@ + render_each(
            items,
            types,
            if items.len() < types.len() {
                items.len()
            } else {
                types.len()
            },
        ) + ")"@,
        _ => "<<opaque>>"@,
    }
}

/// The first `n` of `items` as text, each of type `t`, with a comma and a
/// space between them.
pub open spec fn render_items(items: Seq<ValueView>, t: TypeView, n: nat) -> Seq<char>
    decreases t, n + 1,
{
    if n == 0 || n > items.len() {
        Seq::empty()
    } else if n == 1 {
        render(items[0], t)
    } else {
        render_items(items, t, (n - 1) as nat) + ", "@ + render(items[n - 1], t)
    }
}

/// The first `n` of `items` as text, each of the type at its position, with
/// a comma and a space between them.
pub open spec fn render_each(items: Seq<ValueView>, types: Seq<TypeView>, n: nat) -> Seq<char>
    decreases types, n + 1,
{
    if n == 0 || n > items.len() || n > types.len() {
        Seq::empty()
    } else if n == 1 {
        render(items[0], types[0])
    } else {
        render_each(items, types, (n - 1) as nat) + ", "@ + render(items[n - 1], types[n - 1])
    }
}

/// One field as text: its name, a colon, and the value that the entries hold
/// under that name, `<<opaque>>` where they hold none.
pub open spec fn render_field(
    entries: Seq<(Seq<char>, ValueView)>,
    fields: Seq<(Seq<char>, TypeView)>,
    k: int,
) -> Seq<char>
    recommends
        0 <= k < fields.len(),
    decreases fields, 0nat,
{
    if 0 <= k < fields.len() {
        let at = entry_position(entries, fields[k].0);
        fields[k].0 + ": "@ + if 0 <= at < entries.len() {
            render(entries[at].1, fields[k].1)
        } else {
            "<<opaque>>"@
        }
    } else {
        Seq::empty()
    }
}

/// The first `n` fields as text, with a comma and a space between them.
pub open spec fn render_fields(
    entries: Seq<(Seq<char>, ValueView)>,
    fields: Seq<(Seq<char>, TypeView)>,
    n: nat,
) -> Seq<char>
    decreases fields, n + 1,
{
    if n == 0 || n > fields.len() {
        Seq::empty()
    } else if n == 1 {
        render_field(entries, fields, 0)
    } else {
        render_fields(entries, fields, (n - 1) as nat) + ", "@ + render_field(
            entries,
            fields,
            n - 1,
        )
    }
}

fn push_value(text: &mut String, value: &PrintableValue, typ: &PrintableType)
    ensures
        final(text)@ == old(text)@ + render(value@, typ@),
    decreases typ, 0nat,
{
    match (value, typ) {
        (PrintableValue::Field(f), PrintableType::Field) => {
            let shown = format_field_string(*f);
            push_str(text, shown.as_str());
        },
        (PrintableValue::Field(f), PrintableType::UnsignedInteger { width }) => {
            push_unsigned(text, *f, *width);
        },
        (PrintableValue::Field(f), PrintableType::SignedInteger { width }) => {
            push_signed(text, *f, *width);
        },
        (PrintableValue::Field(f), PrintableType::Boolean) => {
            if f.hi == 0 && f.lo == 1 {
                push_str(text, "true");
            } else {
                push_str(text, "false");
            }
        },
        (PrintableValue::Field(_), PrintableType::Function { name, arguments }) => {
            push_str(text, "<<fn ");
            push_str(text, name.as_str());
            push_str(text, "(");
            let ghost head = text@;
            let ghost names = field_views(arguments@);
            proof {
                lemma_field_views(arguments@);
                assert(head + Seq::<char>::empty() =~= head);
            }
            let mut i: usize = 0;
            while i < arguments.len()
                invariant
                    0 <= i <= arguments.len(),
                    names == field_views(arguments@),
                    names.len() == arguments.len(),
                    forall|k: int|
                        0 <= k < arguments.len() ==> #[trigger] names[k] == (
                            arguments[k].0@,
                            arguments[k].1@,
                        ),
                    text@ == head + joined_names(names, i as nat),
                decreases arguments.len() - i,
            {
                if i > 0 {
                    push_str(text, ", ");
                }
                push_str(text, arguments[i].0.as_str());
                assert(text@ =~= head + joined_names(names, (i + 1) as nat));
                i += 1;
            }
            push_str(text, ")>>");
            assert(text@ =~= old(text)@ + render(value@, typ@));
        },
        (_, PrintableType::MutableReference { .. }) => {
            push_str(text, "<<mutable ref>>");
        },
        (PrintableValue::Vec(items), PrintableType::Array { typ: element, .. }) => {
            push_str(text, "[");
            let ghost head = text@;
            let ghost models = value_views(items@);
            proof {
                lemma_value_views(items@);
                assert(head + Seq::<char>::empty() =~= head);
            }
            let mut i: usize = 0;
            while i < items.len()
                invariant
                    0 <= i <= items.len(),
                    models == value_views(items@),
                    models.len() == items.len(),
                    forall|k: int| 0 <= k < items.len() ==> #[trigger] models[k] == items[k]@,
                    decreases_to!(typ => element),
                    text@ == head + render_items(models, element@, i as nat),
                decreases items.len() - i,
            {
                if i > 0 {
                    push_str(text, ", ");
                }
                push_value(text, &items[i], &**element);
                assert(text@ =~= head + render_items(models, element@, (i + 1) as nat));
                i += 1;
            }
            push_str(text, "]");
            assert(text@ =~= old(text)@ + render(value@, typ@));
        },
        (PrintableValue::String(s), PrintableType::String { .. }) => {
            push_str(text, s.as_str());
        },
        (PrintableValue::Struct(entries), PrintableType::Struct { name, fields }) => {
            push_str(text, name.as_str());
            push_str(text, " { ");
            let ghost head = text@;
            let ghost entry_models = entry_views(entries@);
            let ghost field_models = field_views(fields@);
            proof {
                lemma_entry_views(entries@);
                lemma_field_views(fields@);
                assert(head + Seq::<char>::empty() =~= head);
            }
            let mut i: usize = 0;
            while i < fields.len()
                invariant
                    0 <= i <= fields.len(),
                    entry_models == entry_views(entries@),
                    field_models == field_views(fields@),
                    entry_models.len() == entries.len(),
                    field_models.len() == fields.len(),
                    forall|k: int|
                        0 <= k < entries.len() ==> #[trigger] entry_models[k] == (
                            entries[k].0@,
                            entries[k].1@,
                        ),
                    forall|k: int|
                        0 <= k < fields.len() ==> #[trigger] field_models[k] == (
                            fields[k].0@,
                            fields[k].1@,
                        ),
                    forall|k: int| 0 <= k < fields.len() ==> decreases_to!(typ => fields[k]),
                    text@ == head + render_fields(entry_models, field_models, i as nat),
                decreases fields.len() - i,
            {
                if i > 0 {
                    push_str(text, ", ");
                }
                let ghost before = text@;
                push_str(text, fields[i].0.as_str());
                push_str(text, ": ");
                match find_entry(entries, &fields[i].0) {
                    Some(at) => {
                        push_value(text, &entries[at].1, &fields[i].1);
                    },
                    None => {
                        push_str(text, "<<opaque>>");
                    },
                }
                proof {
                    lemma_entry_position(entry_models, field_models[i as int].0);
                    assert(text@ =~= before + render_field(entry_models, field_models, i as int));
                    assert(text@ =~= head + render_fields(
                        entry_models,
                        field_models,
                        (i + 1) as nat,
                    ));
                }
                i += 1;
            }
            push_str(text, " }");
            assert(text@ =~= old(text)@ + render(value@, typ@));
        },
        (PrintableValue::Vec(items), PrintableType::Tuple { types }) => {
            push_str(text, "(");
            let ghost head = text@;
            let ghost models = value_views(items@);
            let ghost type_models = type_views(types@);
            proof {
                lemma_value_views(items@);
                lemma_type_views(types@);
                assert(head + Seq::<char>::empty() =~= head);
            }
            let n = if items.len() < types.len() {
                items.len()
            } else {
                types.len()
            };
            let mut i: usize = 0;
            while i < n
                invariant
                    0 <= i <= n,
                    n <= items.len(),
                    n <= types.len(),
                    models == value_views(items@),
                    type_models == type_views(types@),
                    models.len() == items.len(),
                    type_models.len() == types.len(),
                    forall|k: int| 0 <= k < items.len() ==> #[trigger] models[k] == items[k]@,
                    forall|k: int| 0 <= k < types.len() ==> #[trigger] type_models[k] == types[k]@,
                    forall|k: int| 0 <= k < types.len() ==> decreases_to!(typ => types[k]),
                    text@ == head + render_each(models, type_models, i as nat),
                decreases n - i,
            {
                if i > 0 {
                    push_str(text, ", ");
                }
                push_value(text, &items[i], &types[i]);
                assert(text@ =~= head + render_each(models, type_models, (i + 1) as nat));
                i += 1;
            }
            push_str(text, ")");
            assert(text@ =~= old(text)@ + render(value@, typ@));
        },
        _ => {
            push_str(text, "<<opaque>>");
        },
    }
}

/// A value of a type as text.
pub fn to_string(value: &PrintableValue, typ: &PrintableType) -> (text: String)
    ensures
        text@ == render(value@, typ@),
{
    let mut text = String::new();
    push_value(&mut text, value, typ);
    assert(Seq::<char>::empty() + render(value@, typ@) =~= render(value@, typ@));
    text
}

/// Why a format string cannot be filled.
#[derive(Clone, Copy, Debug, PartialEq, Eq, Structural)]
pub enum FormatError {
    /// There are more placeholders than values.
    MissingValue,
    /// A placeholder does not lie behind the one before it, or not inside the template.
    BadSpan,
    /// The filled template is not UTF-8.
    Malformed,
}

/// A value ready to be shown.
#[derive(Debug, PartialEq, Eq)]
pub enum PrintableValueDisplay {
    /// One value with its type.
    Plain(PrintableValue, PrintableType),
    /// A template with `{name}` placeholders, and the values for them in order.
    FmtString(String, Vec<(PrintableValue, PrintableType)>),
}

/// The byte ranges, start and end, of the placeholders of a template: what
/// the regular expression `\{([a-zA-Z0-9_]+)\}` matches in it, in order.
pub uninterp spec fn spec_placeholder_spans(template: Seq<char>) -> Seq<(usize, usize)>;

/// `Regex::find_iter` of the regex crate for the pattern
/// `\{([a-zA-Z0-9_]+)\}`: the start and the end, in bytes, of each
/// successive match in `template`. Nothing is claimed of the ranges but that
/// they depend on the template alone.
#[verifier::external_body]
fn placeholder_spans(template: &str) -> (spans: Vec<(usize, usize)>)
    ensures
        spans@ == spec_placeholder_spans(template@),
{
    match regex::Regex::new(r"\{([a-zA-Z0-9_]+)\}") {
        Ok(pattern) => pattern.find_iter(template).map(|found| (found.start(), found.end())).collect(),
        Err(_) => Vec::new(),
    }
}

/// The template filled up to its `n`-th placeholder: the bytes so far and
/// the end of the last placeholder. Each placeholder must begin at or behind
/// the end of the one before and end inside the template, and needs a value.
pub open spec fn spec_fill(
    template: Seq<u8>,
    spans: Seq<(usize, usize)>,
    values: Seq<Seq<u8>>,
    n: nat,
) -> Result<(Seq<u8>, nat), FormatError>
    decreases n,
{
    if n == 0 || n > spans.len() {
        Ok((Seq::empty(), 0))
    } else {
        match spec_fill(template, spans, values, (n - 1) as nat) {
            Err(e) => Err(e),
            Ok((out, last)) => {
                let (start, end) = spans[n - 1];
                if !(last <= start <= end <= template.len()) {
                    Err(FormatError::BadSpan)
                } else if n - 1 >= values.len() {
                    Err(FormatError::MissingValue)
                } else {
                    Ok(
                        (
                            out + template.subrange(last as int, start as int) + values[n - 1],
                            end as nat,
                        ),
                    )
                }
            },
        }
    }
}

/// The template with each placeholder replaced by the value at its position.
pub open spec fn spec_filled(template: Seq<u8>, spans: Seq<(usize, usize)>, values: Seq<Seq<u8>>) -> Result<
    Seq<char>,
    FormatError,
> {
    match spec_fill(template, spans, values, spans.len()) {
        Err(e) => Err(e),
        Ok((out, last)) => {
            let all = out + template.subrange(last as int, template.len() as int);
            if valid_utf8(all) {
                Ok(decode_utf8(all))
            } else {
                Err(FormatError::Malformed)
            }
        },
    }
}

/// An error of `spec_fill` at one placeholder is the error at every later one.
pub proof fn lemma_fill_error(
    template: Seq<u8>,
    spans: Seq<(usize, usize)>,
    values: Seq<Seq<u8>>,
    k: nat,
    n: nat,
)
    requires
        k <= n <= spans.len(),
        spec_fill(template, spans, values, k).is_err(),
    ensures
        spec_fill(template, spans, values, n) == spec_fill(template, spans, values, k),
    decreases n,
{
    if k < n {
        lemma_fill_error(template, spans, values, k, (n - 1) as nat);
    }
}

/// The bytes of each text.
pub open spec fn texts_bytes(texts: Seq<String>) -> Seq<Seq<u8>> {
    Seq::new(texts.len(), |i: int| encode_utf8(texts[i]@))
}

fn push_bytes(out: &mut Vec<u8>, bytes: &[u8], from: usize, to: usize)
    requires
        from <= to <= bytes.len(),
    ensures
        final(out)@ == old(out)@ + bytes@.subrange(from as int, to as int),
{
    let mut i: usize = from;
    assert(bytes@.subrange(from as int, from as int) =~= Seq::<u8>::empty());
    assert(out@ + Seq::<u8>::empty() =~= out@);
    while i < to
        invariant
            from <= i <= to <= bytes.len(),
            out@ == old(out)@ + bytes@.subrange(from as int, i as int),
        decreases to - i,
    {
        out.push(bytes[i]);
        assert(bytes@.subrange(from as int, i + 1) =~= bytes@.subrange(
            from as int,
            i as int,
        ).push(bytes@[i as int]));
        i += 1;
    }
}

/// Replaces each of the byte ranges `spans` of `template` by the value at
/// its position. Fails where a range does not lie behind the one before it
/// and inside the template, where the values run out, or where the result is
/// not UTF-8.
pub fn fill_template(template: &str, spans: &Vec<(usize, usize)>, values: &Vec<String>) -> (result:
    Result<String, FormatError>)
    ensures
        match (result, spec_filled(encode_utf8(template@), spans@, texts_bytes(values@))) {
            (Ok(text), Ok(expected)) => text@ == expected,
            (Err(e), Err(expected)) => e == expected,
            _ => false,
        },
{
    let bytes = template.as_bytes();
    let ghost source = encode_utf8(template@);
    let ghost replacements = texts_bytes(values@);
    let mut out: Vec<u8> = Vec::new();
    let mut last: usize = 0;
    let mut i: usize = 0;
    while i < spans.len()
        invariant
            0 <= i <= spans.len(),
            bytes@ == source,
            source == encode_utf8(template@),
            replacements == texts_bytes(values@),
            last <= bytes.len(),
            spec_fill(source, spans@, replacements, i as nat) == Ok::<(Seq<u8>, nat), FormatError>(
                (out@, last as nat),
            ),
        decreases spans.len() - i,
    {
        let start = spans[i].0;
        let end = spans[i].1;
        if !(last <= start && start <= end && end <= bytes.len()) {
            proof {
                lemma_fill_error(source, spans@, replacements, (i + 1) as nat, spans.len() as nat);
            }
            return Err(FormatError::BadSpan);
        }
        if i >= values.len() {
            proof {
                lemma_fill_error(source, spans@, replacements, (i + 1) as nat, spans.len() as nat);
            }
            return Err(FormatError::MissingValue);
        }
        push_bytes(&mut out, bytes, last, start);
        let value = values[i].as_str().as_bytes();
        push_bytes(&mut out, value, 0, value.len());
        assert(value@.subrange(0, value.len() as int) =~= value@);
        last = end;
        i += 1;
    }
    push_bytes(&mut out, bytes, last, bytes.len());
    match string_from_utf8(out) {
        Some(text) => Ok(text),
        None => Err(FormatError::Malformed),
    }
}

/// The texts of the values of a format string.
pub open spec fn rendered(values: Seq<(PrintableValue, PrintableType)>) -> Seq<Seq<u8>> {
    Seq::new(values.len(), |i: int| encode_utf8(render(values[i].0@, values[i].1@)))
}

impl PrintableValueDisplay {
    /// The text to show: that of the value, or the template with each
    /// placeholder replaced by the text of the value at its position.
    pub fn to_text(&self) -> (result: Result<String, FormatError>)
        ensures
            match self {
                PrintableValueDisplay::Plain(value, typ) => result matches Ok(text) && text@
                    == render(value@, typ@),
                PrintableValueDisplay::FmtString(template, values) => match (
                    result,
                    spec_filled(
                        encode_utf8(template@),
                        spec_placeholder_spans(template@),
                        rendered(values@),
                    ),
                ) {
                    (Ok(text), Ok(expected)) => text@ == expected,
                    (Err(e), Err(expected)) => e == expected,
                    _ => false,
                },
            },
    {
        match self {
            PrintableValueDisplay::Plain(value, typ) => Ok(to_string(value, typ)),
            PrintableValueDisplay::FmtString(template, values) => {
                let mut texts: Vec<String> = Vec::new();
                let mut i: usize = 0;
                while i < values.len()
                    invariant
                        0 <= i <= values.len(),
                        texts.len() == i,
                        forall|k: int|
                            0 <= k < i ==> #[trigger] texts[k]@ == render(
                                values[k].0@,
                                values[k].1@,
                            ),
                    decreases values.len() - i,
                {
                    texts.push(to_string(&values[i].0, &values[i].1));
                    i += 1;
                }
                assert(texts_bytes(texts@) =~= rendered(values@));
                let spans = placeholder_spans(template.as_str());
                fill_template(template.as_str(), &spans, &texts)
            },
        }
    }
}

/// Why a foreign call cannot be carried out.
#[derive(Debug, PartialEq, Eq)]
pub enum ForeignCallError {
    /// The call lacks inputs.
    MissingForeignCallInputs,
    /// The description of a printable type does not parse; with the parser's words.
    ParsingError(String),
    /// The outside resolver failed; with its words.
    ExternalResolverError(String),
}

impl ForeignCallError {
    /// The message of the error.
    pub fn message(&self) -> (text: String)
        ensures
            text@ == match self {
                ForeignCallError::MissingForeignCallInputs => {
                    "Foreign call inputs needed for execution are missing"@
                },
                ForeignCallError::ParsingError(words) => "Could not parse PrintableType argument. "@
                    + words@,
                ForeignCallError::ExternalResolverError(words) => {
                    "Failed calling external resolver. "@ + words@
                },
            },
    {
        match self {
            ForeignCallError::MissingForeignCallInputs => {
                "Foreign call inputs needed for execution are missing".to_owned()
            },
            ForeignCallError::ParsingError(words) => {
                let mut text = "Could not parse PrintableType argument. ".to_owned();
                push_str(&mut text, words.as_str());
                text
            },
            ForeignCallError::ExternalResolverError(words) => {
                let mut text = "Failed calling external resolver. ".to_owned();
                push_str(&mut text, words.as_str());
                text
            },
        }
    }
}

/// A type as text, as the front-end shows it beside a variable.
pub open spec fn type_text(t: TypeView) -> Seq<char>
    decreases t, 0nat,
{
    match t {
        TypeView::Field => "Field"@,
        TypeView::SignedInteger { width } => "i"@ + decimal(width as nat),
        TypeView::UnsignedInteger { width } => "u"@ + decimal(width as nat),
        TypeView::Boolean => "bool"@,
        TypeView::Array { length: Some(n), typ } => "["@ + type_text(*typ) + "; "@ + decimal(
            n as nat,
        ) + "]"@,
        TypeView::Array { length: None, typ } => "["@ + type_text(*typ) + "]"@,
        TypeView::Tuple { types } => "("@ + types_text(types, types.len()) + ")"@,
        TypeView::Struct { name, .. } => name,
        TypeView::String { length } => "str<"@ + decimal(length as nat) + ">"@,
        TypeView::Function { name, .. } => "fn "@ + name,
        TypeView::MutableReference { typ } => "&mut "@ + type_text(*typ),
        _ => "_"@,
    }
}

/// The first `n` types as text, with a comma and a space between them.
pub open spec fn types_text(types: Seq<TypeView>, n: nat) -> Seq<char>
    decreases types, n + 1,
{
    if n == 0 || n > types.len() {
        Seq::empty()
    } else if n == 1 {
        type_text(types[0])
    } else {
        types_text(types, (n - 1) as nat) + ", "@ + type_text(types[n - 1])
    }
}

/// Appends a type as text.
pub fn push_type(text: &mut String, typ: &PrintableType)
    ensures
        final(text)@ == old(text)@ + type_text(typ@),
    decreases typ, 0nat,
{
    match typ {
        PrintableType::Field => {
            push_str(text, "Field");
        },
        PrintableType::SignedInteger { width } => {
            push_str(text, "i");
            push_decimal(text, *width as u128);
            assert(text@ =~= old(text)@ + type_text(typ@));
        },
        PrintableType::UnsignedInteger { width } => {
            push_str(text, "u");
            push_decimal(text, *width as u128);
            assert(text@ =~= old(text)@ + type_text(typ@));
        },
        PrintableType::Boolean => {
            push_str(text, "bool");
        },
        PrintableType::Array { length: Some(n), typ: element } => {
            push_str(text, "[");
            push_type(text, &**element);
            push_str(text, "; ");
            push_decimal(text, *n as u128);
            push_str(text, "]");
            assert(text@ =~= old(text)@ + type_text(typ@));
        },
        PrintableType::Array { length: None, typ: element } => {
            push_str(text, "[");
            push_type(text, &**element);
            push_str(text, "]");
            assert(text@ =~= old(text)@ + type_text(typ@));
        },
        PrintableType::Tuple { types } => {
            push_str(text, "(");
            let ghost head = text@;
            let ghost models = type_views(types@);
            proof {
                lemma_type_views(types@);
                assert(head + Seq::<char>::empty() =~= head);
            }
            let mut i: usize = 0;
            while i < types.len()
                invariant
                    0 <= i <= types.len(),
                    models == type_views(types@),
                    models.len() == types.len(),
                    forall|k: int| 0 <= k < types.len() ==> #[trigger] models[k] == types[k]@,
                    forall|k: int| 0 <= k < types.len() ==> decreases_to!(typ => types[k]),
                    text@ == head + types_text(models, i as nat),
                decreases types.len() - i,
            {
                if i > 0 {
                    push_str(text, ", ");
                }
                push_type(text, &types[i]);
                assert(text@ =~= head + types_text(models, (i + 1) as nat));
                i += 1;
            }
            push_str(text, ")");
            assert(text@ =~= old(text)@ + type_text(typ@));
        },
        PrintableType::Struct { name, .. } => {
            push_str(text, name.as_str());
        },
        PrintableType::String { length } => {
            push_str(text, "str<");
            push_decimal(text, *length as u128);
            push_str(text, ">");
            assert(text@ =~= old(text)@ + type_text(typ@));
        },
        PrintableType::Function { name, .. } => {
            push_str(text, "fn ");
            push_str(text, name.as_str());
            assert(text@ =~= old(text)@ + type_text(typ@));
        },
        PrintableType::MutableReference { typ: referent } => {
            push_str(text, "&mut ");
            push_type(text, &**referent);
            assert(text@ =~= old(text)@ + type_text(typ@));
        },
        _ => {
            push_str(text, "_");
        },
    }
}

} // verus!
