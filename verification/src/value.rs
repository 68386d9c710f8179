//! Printable values: what a variable of the running program holds, in the
//! shape that its printable type describes.

use crate::field::FieldElement;
use vstd::prelude::*;

verus! {

/// A value of the running program.
#[derive(Debug, PartialEq, Eq)]
pub enum PrintableValue {
    /// A field element: also every integer and boolean.
    Field(FieldElement),
    /// A string.
    String(String),
    /// The elements of an array, a slice or a tuple.
    Vec(Vec<PrintableValue>),
    /// The fields of a struct by name. No name occurs twice.
    Struct(Vec<(String, PrintableValue)>),
    /// A value without a printable form.
    Opaque,
}

/// The mathematical model of a [`PrintableValue`].
pub enum ValueView {
    Field(FieldElement),
    String(Seq<char>),
    Vec(Seq<ValueView>),
    Struct(Seq<(Seq<char>, ValueView)>),
    Opaque,
}

/// The models of a list of values, in order.
pub open spec fn value_views(values: Seq<PrintableValue>) -> Seq<ValueView>
    decreases values,
{
    if values.len() == 0 {
        Seq::empty()
    } else {
        value_views(values.drop_last()).push(value_view(values.last()))
    }
}

/// The models of a list of named values, in order.
pub open spec fn entry_views(entries: Seq<(String, PrintableValue)>) -> Seq<(Seq<char>, ValueView)>
    decreases entries,
{
    if entries.len() == 0 {
        Seq::empty()
    } else {
        entry_views(entries.drop_last()).push((entries.last().0@, value_view(entries.last().1)))
    }
}

/// The model of one value.
pub open spec fn value_view(v: PrintableValue) -> ValueView
    decreases v,
{
    match v {
        PrintableValue::Field(f) => ValueView::Field(f),
        PrintableValue::String(s) => ValueView::String(s@),
        PrintableValue::Vec(values) => ValueView::Vec(value_views(values@)),
        PrintableValue::Struct(entries) => ValueView::Struct(entry_views(entries@)),
        PrintableValue::Opaque => ValueView::Opaque,
    }
}

impl View for PrintableValue {
    type V = ValueView;

    open spec fn view(&self) -> ValueView {
        value_view(*self)
    }
}

/// `value_views` keeps the length and maps each position.
pub proof fn lemma_value_views(values: Seq<PrintableValue>)
    ensures
        value_views(values).len() == values.len(),
        forall|i: int| 0 <= i < values.len() ==> #[trigger] value_views(values)[i] == values[i]@,
    decreases values.len(),
{
    if values.len() > 0 {
        lemma_value_views(values.drop_last());
    }
}

/// `entry_views` keeps the length and maps each position.
pub proof fn lemma_entry_views(entries: Seq<(String, PrintableValue)>)
    ensures
        entry_views(entries).len() == entries.len(),
        forall|i: int|
            0 <= i < entries.len() ==> #[trigger] entry_views(entries)[i] == (
                entries[i].0@,
                entries[i].1@,
            ),
    decreases entries.len(),
{
    if entries.len() > 0 {
        lemma_entry_views(entries.drop_last());
    }
}

/// The position of the first entry named `name`, or the length where there is none.
pub open spec fn entry_position(entries: Seq<(Seq<char>, ValueView)>, name: Seq<char>) -> int
    decreases entries.len(),
{
    if entries.len() == 0 {
        0
    } else if entries[0].0 == name {
        0
    } else {
        1 + entry_position(entries.drop_first(), name)
    }
}

/// `entry_position` is in range, points at an entry of that name if any, and
/// no earlier entry has the name.
pub proof fn lemma_entry_position(entries: Seq<(Seq<char>, ValueView)>, name: Seq<char>)
    ensures
        0 <= entry_position(entries, name) <= entries.len(),
        entry_position(entries, name) < entries.len() ==> entries[entry_position(
            entries,
            name,
        )].0 == name,
        forall|k: int| 0 <= k < entry_position(entries, name) ==> (#[trigger] entries[k]).0 != name,
    decreases entries.len(),
{
    if entries.len() > 0 && entries[0].0 != name {
        lemma_entry_position(entries.drop_first(), name);
        assert forall|k: int| 0 <= k < entry_position(entries, name) implies (
        #[trigger] entries[k]).0 != name by {
            if k > 0 {
                assert(entries[k] == entries.drop_first()[k - 1]);
            }
        }
    }
}

/// The entries after `name` is bound to `value`: the first entry of that name
/// is replaced, or a new entry is added at the end.
pub open spec fn entries_insert(
    entries: Seq<(Seq<char>, ValueView)>,
    name: Seq<char>,
    value: ValueView,
) -> Seq<(Seq<char>, ValueView)> {
    let at = entry_position(entries, name);
    if at < entries.len() {
        entries.update(at, (name, value))
    } else {
        entries.push((name, value))
    }
}

fn clone_values(values: &Vec<PrintableValue>) -> (res: Vec<PrintableValue>)
    ensures
        value_views(res@) == value_views(values@),
        res.len() == values.len(),
    decreases values,
{
    let mut res: Vec<PrintableValue> = Vec::new();
    let mut i: usize = 0;
    while i < values.len()
        invariant
            0 <= i <= values.len(),
            res.len() == i,
            forall|k: int| 0 <= k < i ==> #[trigger] res[k]@ == values[k]@,
            forall|k: int| 0 <= k < values.len() ==> decreases_to!(values => values[k]),
        decreases values.len() - i,
    {
        let v = values[i].clone();
        res.push(v);
        i += 1;
    }
    proof {
        lemma_value_views(res@);
        lemma_value_views(values@);
        assert(value_views(res@) =~= value_views(values@));
    }
    res
}

fn clone_entries(entries: &Vec<(String, PrintableValue)>) -> (res: Vec<(String, PrintableValue)>)
    ensures
        entry_views(res@) == entry_views(entries@),
        res.len() == entries.len(),
    decreases entries,
{
    let mut res: Vec<(String, PrintableValue)> = Vec::new();
    let mut i: usize = 0;
    while i < entries.len()
        invariant
            0 <= i <= entries.len(),
            res.len() == i,
            forall|k: int|
                0 <= k < i ==> (#[trigger] res[k]).0@ == entries[k].0@ && res[k].1@
                    == entries[k].1@,
            forall|k: int| 0 <= k < entries.len() ==> decreases_to!(entries => entries[k]),
        decreases entries.len() - i,
    {
        let name = entries[i].0.clone();
        let v = entries[i].1.clone();
        res.push((name, v));
        i += 1;
    }
    proof {
        lemma_entry_views(res@);
        lemma_entry_views(entries@);
        assert(entry_views(res@) =~= entry_views(entries@));
    }
    res
}

impl Clone for PrintableValue {
    fn clone(&self) -> (res: Self)
        ensures
            res@ == self@,
        decreases self,
    {
        match self {
            PrintableValue::Field(f) => PrintableValue::Field(*f),
            PrintableValue::String(s) => PrintableValue::String(s.clone()),
            PrintableValue::Vec(values) => PrintableValue::Vec(clone_values(values)),
            PrintableValue::Struct(entries) => PrintableValue::Struct(clone_entries(entries)),
            PrintableValue::Opaque => PrintableValue::Opaque,
        }
    }
}

/// Binds `name` to `value` in the entries of a struct value: the entry of that
/// name is replaced, or a new one is added at the end.
pub fn struct_insert(entries: &mut Vec<(String, PrintableValue)>, name: String, value: PrintableValue)
    ensures
        entry_views(final(entries)@) == entries_insert(entry_views(old(entries)@), name@, value@),
{
    proof {
        lemma_entry_views(entries@);
        lemma_entry_position(entry_views(entries@), name@);
    }
    let ghost before = entries@;
    let mut i: usize = 0;
    while i < entries.len()
        invariant
            0 <= i <= entries.len(),
            entries@ == before,
            before == old(entries)@,
            entry_views(before).len() == before.len(),
            forall|k: int|
                0 <= k < before.len() ==> #[trigger] entry_views(before)[k] == (
                    before[k].0@,
                    before[k].1@,
                ),
            forall|k: int| 0 <= k < i ==> (#[trigger] entry_views(before)[k]).0 != name@,
            0 <= entry_position(entry_views(before), name@) <= before.len(),
            entry_position(entry_views(before), name@) < before.len() ==> entry_views(
                before,
            )[entry_position(entry_views(before), name@)].0 == name@,
            forall|k: int|
                0 <= k < entry_position(entry_views(before), name@) ==> (#[trigger] entry_views(
                    before,
                )[k]).0 != name@,
        decreases entries.len() - i,
    {
        if entries[i].0 == name {
            assert(entry_views(before)[i as int].0 == name@);
            assert(entry_position(entry_views(before), name@) == i);
            let ghost name_view = name@;
            let ghost value_model = value@;
            entries[i] = (name, value);
            proof {
                lemma_entry_views(entries@);
                assert(entries@.len() == before.len());
                assert(entries@[i as int].0@ == name_view);
                assert(entries@[i as int].1@ == value_model);
                assert(forall|k: int| 0 <= k < before.len() && k != i ==> entries@[k] == before[k]);
                assert(entry_views(entries@) =~= entry_views(before).update(
                    i as int,
                    (name_view, value_model),
                ));
            }
            return ;
        }
        i += 1;
    }
    assert(entry_position(entry_views(before), name@) == before.len());
    entries.push((name, value));
    proof {
        lemma_entry_views(entries@);
        assert(entry_views(entries@) =~= entry_views(before).push((name@, value@)));
    }
}

/// The position of the entry named `name`, if there is one.
pub fn find_entry(entries: &Vec<(String, PrintableValue)>, name: &String) -> (at: Option<usize>)
    ensures
        match at {
            Some(k) => k < entries.len() && k == entry_position(entry_views(entries@), name@),
            None => entry_position(entry_views(entries@), name@) == entries.len(),
        },
{
    proof {
        lemma_entry_views(entries@);
        lemma_entry_position(entry_views(entries@), name@);
    }
    let mut k: usize = 0;
    while k < entries.len()
        invariant
            0 <= k <= entries.len(),
            entry_views(entries@).len() == entries.len(),
            forall|j: int|
                0 <= j < entries.len() ==> #[trigger] entry_views(entries@)[j] == (
                    entries[j].0@,
                    entries[j].1@,
                ),
            forall|j: int| 0 <= j < k ==> (#[trigger] entry_views(entries@)[j]).0 != name@,
            0 <= entry_position(entry_views(entries@), name@) <= entries.len(),
            entry_position(entry_views(entries@), name@) < entries.len() ==> entry_views(
                entries@,
            )[entry_position(entry_views(entries@), name@)].0 == name@,
            forall|j: int|
                0 <= j < entry_position(entry_views(entries@), name@) ==> (
                #[trigger] entry_views(entries@)[j]).0 != name@,
        decreases entries.len() - k,
    {
        if entries[k].0 == *name {
            assert(entry_views(entries@)[k as int].0 == name@);
            return Some(k);
        }
        k += 1;
    }
    None
}

} // verus!
