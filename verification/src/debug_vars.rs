//! The store of the variables that are live while the program runs: one
//! frame per active function call, each a map from variable id to value.

use crate::decode::{DecodeError, FieldIterator, spec_decode, try_decode_value};
use crate::field::FieldElement;
use crate::printable::{
    field_views, lemma_field_views, lemma_type_views, PrintableType, type_views, TypeView,
};
use crate::value::{
    entry_position, entry_views, find_entry, lemma_entry_position, lemma_entry_views,
    lemma_value_views, PrintableValue, value_views, ValueView,
};
use std::collections::HashMap;
use vstd::prelude::*;
use vstd::slice::slice_to_vec;
use vstd::std_specs::hash::spec_hash_map_iter;
use vstd::std_specs::iter::IteratorSpec;

verus! {

broadcast use vstd::std_specs::hash::group_hash_axioms;

/// Why the store refuses an operation.
#[derive(Clone, Copy, Debug, PartialEq, Eq, Structural)]
pub enum StoreError {
    /// No function call is active.
    NoFrame,
    /// The variable has no value in the top frame.
    UnknownVariable,
    /// The variable has no registered type.
    UnknownType,
    /// A step of the path does not fit the value that it enters: the value is
    /// no aggregate, the index is past its end, or its length is not that of
    /// its type.
    BadPath,
    /// The new value does not decode.
    Decode(DecodeError),
    /// Assignment through a reference is not supported.
    Unsupported,
}

/// The value `v` of type `t` with the part at `path` replaced by the value
/// that `s` decodes to, where every step of `path` is an index into an array,
/// a tuple or the fields of a struct.
pub open spec fn spec_assign_at(
    v: ValueView,
    t: TypeView,
    path: Seq<u32>,
    s: Seq<FieldElement>,
) -> Result<ValueView, StoreError>
    decreases path.len(),
{
    if path.len() == 0 {
        match spec_decode(s, t) {
            Ok((value, _)) => Ok(value),
            Err(e) => Err(StoreError::Decode(e)),
        }
    } else {
        let i = path[0] as int;
        match (v, t) {
            (ValueView::Vec(items), TypeView::Array { length, typ }) => {
                if i < items.len() && (length matches Some(n) ==> i < n && n == items.len()) {
                    match spec_assign_at(items[i], *typ, path.drop_first(), s) {
                        Ok(part) => Ok(ValueView::Vec(items.update(i, part))),
                        Err(e) => Err(e),
                    }
                } else {
                    Err(StoreError::BadPath)
                }
            },
            (ValueView::Struct(entries), TypeView::Struct { fields, .. }) => {
                if i < fields.len() && entry_position(entries, fields[i].0) < entries.len() {
                    let at = entry_position(entries, fields[i].0);
                    match spec_assign_at(entries[at].1, fields[i].1, path.drop_first(), s) {
                        Ok(part) => Ok(ValueView::Struct(entries.update(at, (entries[at].0, part)))),
                        Err(e) => Err(e),
                    }
                } else {
                    Err(StoreError::BadPath)
                }
            },
            (ValueView::Vec(items), TypeView::Tuple { types }) => {
                if i < types.len() && types.len() == items.len() {
                    match spec_assign_at(items[i], types[i], path.drop_first(), s) {
                        Ok(part) => Ok(ValueView::Vec(items.update(i, part))),
                        Err(e) => Err(e),
                    }
                } else {
                    Err(StoreError::BadPath)
                }
            },
            _ => Err(StoreError::BadPath),
        }
    }
}

/// The part of `v` that `path` leads to, with its type, or `None` where a
/// step of the path does not fit.
pub open spec fn spec_value_at(v: ValueView, t: TypeView, path: Seq<u32>) -> Option<
    (ValueView, TypeView),
>
    decreases path.len(),
{
    if path.len() == 0 {
        Some((v, t))
    } else {
        let i = path[0] as int;
        match (v, t) {
            (ValueView::Vec(items), TypeView::Array { length, typ }) => {
                if i < items.len() && (length matches Some(n) ==> i < n && n == items.len()) {
                    spec_value_at(items[i], *typ, path.drop_first())
                } else {
                    None
                }
            },
            (ValueView::Struct(entries), TypeView::Struct { fields, .. }) => {
                if i < fields.len() && entry_position(entries, fields[i].0) < entries.len() {
                    spec_value_at(
                        entries[entry_position(entries, fields[i].0)].1,
                        fields[i].1,
                        path.drop_first(),
                    )
                } else {
                    None
                }
            },
            (ValueView::Vec(items), TypeView::Tuple { types }) => {
                if i < types.len() && types.len() == items.len() {
                    spec_value_at(items[i], types[i], path.drop_first())
                } else {
                    None
                }
            },
            _ => None,
        }
    }
}

fn replace_item(items: &Vec<PrintableValue>, at: usize, part: PrintableValue) -> (res: Vec<
    PrintableValue,
>)
    requires
        at < items.len(),
    ensures
        value_views(res@) == value_views(items@).update(at as int, part@),
{
    let mut res: Vec<PrintableValue> = Vec::new();
    let mut k: usize = 0;
    let ghost model = part@;
    let mut slot = Some(part);
    while k < items.len()
        invariant
            0 <= k <= items.len(),
            at < items.len(),
            res.len() == k,
            slot.is_some() == (k <= at),
            slot matches Some(p) ==> p@ == model,
            forall|j: int| 0 <= j < k && j != at ==> #[trigger] res[j]@ == items[j]@,
            at < k ==> res[at as int]@ == model,
        decreases items.len() - k,
    {
        if k == at {
            match slot.take() {
                Some(p) => {
                    res.push(p);
                },
                None => {},
            }
        } else {
            res.push(items[k].clone());
        }
        k += 1;
    }
    proof {
        lemma_value_views(res@);
        lemma_value_views(items@);
        assert(value_views(res@) =~= value_views(items@).update(at as int, model));
    }
    res
}

fn replace_entry(entries: &Vec<(String, PrintableValue)>, at: usize, part: PrintableValue) -> (res:
    Vec<(String, PrintableValue)>)
    requires
        at < entries.len(),
    ensures
        entry_views(res@) == entry_views(entries@).update(
            at as int,
            (entry_views(entries@)[at as int].0, part@),
        ),
{
    let mut res: Vec<(String, PrintableValue)> = Vec::new();
    let mut k: usize = 0;
    let ghost model = part@;
    let mut slot = Some(part);
    while k < entries.len()
        invariant
            0 <= k <= entries.len(),
            at < entries.len(),
            res.len() == k,
            slot.is_some() == (k <= at),
            slot matches Some(p) ==> p@ == model,
            forall|j: int|
                0 <= j < k && j != at ==> (#[trigger] res[j]).0@ == entries[j].0@ && res[j].1@
                    == entries[j].1@,
            at < k ==> res[at as int].0@ == entries[at as int].0@ && res[at as int].1@ == model,
        decreases entries.len() - k,
    {
        if k == at {
            match slot.take() {
                Some(p) => {
                    res.push((entries[k].0.clone(), p));
                },
                None => {},
            }
        } else {
            res.push((entries[k].0.clone(), entries[k].1.clone()));
        }
        k += 1;
    }
    proof {
        lemma_entry_views(res@);
        lemma_entry_views(entries@);
        assert(entry_views(res@) =~= entry_views(entries@).update(
            at as int,
            (entry_views(entries@)[at as int].0, model),
        ));
    }
    res
}

/// Rebuilds `value` with the part at `path[from..]` replaced by what the
/// stream decodes to.
fn assign_at(
    value: &PrintableValue,
    typ: &PrintableType,
    path: &Vec<u32>,
    from: usize,
    stream: &mut FieldIterator,
) -> (result: Result<PrintableValue, StoreError>)
    requires
        from <= path.len(),
    ensures
        match (result, spec_assign_at(value@, typ@, path@.skip(from as int), old(stream)@)) {
            (Ok(v), Ok(model)) => v@ == model,
            (Err(e), Err(expected)) => e == expected,
            _ => false,
        },
    decreases path.len() - from,
{
    if from == path.len() {
        return match try_decode_value(stream, typ) {
            Ok(v) => Ok(v),
            Err(e) => Err(StoreError::Decode(e)),
        };
    }
    let index = path[from] as usize;
    proof {
        assert(path@.skip(from as int)[0] == path[from as int]);
        assert(path@.skip(from as int).drop_first() =~= path@.skip(from + 1));
    }
    match (value, typ) {
        (PrintableValue::Vec(items), PrintableType::Array { length, typ: element }) => {
            proof {
                lemma_value_views(items@);
            }
            let fits = match length {
                Some(n) => (index as u64) < *n && *n == items.len() as u64,
                None => true,
            };
            if index < items.len() && fits {
                match assign_at(&items[index], &**element, path, from + 1, stream) {
                    Ok(part) => Ok(PrintableValue::Vec(replace_item(items, index, part))),
                    Err(e) => Err(e),
                }
            } else {
                Err(StoreError::BadPath)
            }
        },
        (PrintableValue::Struct(entries), PrintableType::Struct { fields, .. }) => {
            proof {
                lemma_entry_views(entries@);
                lemma_field_views(fields@);
            }
            if index < fields.len() {
                match find_entry(entries, &fields[index].0) {
                    Some(at) => {
                        match assign_at(&entries[at].1, &fields[index].1, path, from + 1, stream) {
                            Ok(part) => Ok(PrintableValue::Struct(replace_entry(entries, at, part))),
                            Err(e) => Err(e),
                        }
                    },
                    None => Err(StoreError::BadPath),
                }
            } else {
                Err(StoreError::BadPath)
            }
        },
        (PrintableValue::Vec(items), PrintableType::Tuple { types }) => {
            proof {
                lemma_value_views(items@);
                lemma_type_views(types@);
            }
            if index < types.len() && types.len() == items.len() {
                match assign_at(&items[index], &types[index], path, from + 1, stream) {
                    Ok(part) => Ok(PrintableValue::Vec(replace_item(items, index, part))),
                    Err(e) => Err(e),
                }
            } else {
                Err(StoreError::BadPath)
            }
        },
        _ => Err(StoreError::BadPath),
    }
}

/// One active function call as the front-end shows it.
#[derive(Debug, PartialEq, Eq)]
pub struct DebugStackFrame {
    /// The name of the function.
    pub function_name: String,
    /// The names of its parameters, in order.
    pub function_params: Vec<String>,
    /// The live variables: name, value and type.
    pub variables: Vec<(String, PrintableValue, PrintableType)>,
}

/// The models of the values of a frame.
pub open spec fn frame_view(frame: Map<u32, PrintableValue>) -> Map<u32, ValueView> {
    frame.map_values(|v: PrintableValue| v@)
}

/// The names of the parameters of a function type.
pub open spec fn parameter_names(arguments: Seq<(Seq<char>, TypeView)>) -> Seq<Seq<char>> {
    Seq::new(arguments.len(), |i: int| arguments[i].0)
}

/// The variable store.
#[derive(Debug)]
pub struct DebugVars {
    id_to_name: HashMap<u32, String>,
    frames: Vec<(u32, HashMap<u32, PrintableValue>)>,
    id_to_type: HashMap<u32, u32>,
    types: HashMap<u32, PrintableType>,
}

impl DebugVars {
    /// The name of each registered variable.
    pub closed spec fn names(&self) -> Map<u32, Seq<char>> {
        self.id_to_name@.map_values(|s: String| s@)
    }

    /// The type id of each registered variable.
    pub closed spec fn type_ids(&self) -> Map<u32, u32> {
        self.id_to_type@
    }

    /// The registered types by id.
    pub closed spec fn types(&self) -> Map<u32, TypeView> {
        self.types@.map_values(|t: PrintableType| t@)
    }

    /// The active frames, oldest first: the function's id and its live variables.
    pub closed spec fn frames(&self) -> Seq<(u32, Map<u32, ValueView>)> {
        Seq::new(self.frames.len() as nat, |i: int| (self.frames[i].0, frame_view(self.frames[i].1@)))
    }

    /// The type of variable `var_id`, where the variable and its type are registered.
    pub open spec fn type_of(&self, var_id: u32) -> Option<TypeView> {
        if self.type_ids().contains_key(var_id) && self.types().contains_key(
            self.type_ids()[var_id],
        ) {
            Some(self.types()[self.type_ids()[var_id]])
        } else {
            None
        }
    }

    /// A store that knows the names in `vars` and has no frame.
    pub fn new(vars: &HashMap<u32, String>) -> (store: DebugVars)
        ensures
            store.names() == vars@.map_values(|s: String| s@),
            store.type_ids() == Map::<u32, u32>::empty(),
            store.types() == Map::<u32, TypeView>::empty(),
            store.frames() == Seq::<(u32, Map<u32, ValueView>)>::empty(),
    {
        let store = DebugVars {
            id_to_name: vars.clone(),
            frames: Vec::new(),
            id_to_type: HashMap::new(),
            types: HashMap::new(),
        };
        assert(store.types() =~= Map::<u32, TypeView>::empty());
        assert(store.frames() =~= Seq::<(u32, Map<u32, ValueView>)>::empty());
        store
    }

    /// Opens a frame for a call of function `fn_id`.
    pub fn push_fn(&mut self, fn_id: u32)
        ensures
            final(self).frames() == old(self).frames().push((fn_id, Map::<u32, ValueView>::empty())),
            final(self).names() == old(self).names(),
            final(self).type_ids() == old(self).type_ids(),
            final(self).types() == old(self).types(),
    {
        self.frames.push((fn_id, HashMap::new()));
        assert(frame_view(Map::<u32, PrintableValue>::empty()) =~= Map::<u32, ValueView>::empty());
        assert(self.frames() =~= old(self).frames().push((fn_id, Map::<u32, ValueView>::empty())));
    }

    /// Closes every frame: no value of the run so far is kept. The registered
    /// names and types stay.
    pub fn reset(&mut self)
        ensures
            final(self).frames() == Seq::<(u32, Map<u32, ValueView>)>::empty(),
            final(self).names() == old(self).names(),
            final(self).type_ids() == old(self).type_ids(),
            final(self).types() == old(self).types(),
    {
        self.frames = Vec::new();
        assert(self.frames() =~= Seq::<(u32, Map<u32, ValueView>)>::empty());
    }

    /// Closes the top frame, if there is one.
    pub fn pop_fn(&mut self)
        ensures
            final(self).frames() == if old(self).frames().len() > 0 {
                old(self).frames().drop_last()
            } else {
                old(self).frames()
            },
            final(self).names() == old(self).names(),
            final(self).type_ids() == old(self).type_ids(),
            final(self).types() == old(self).types(),
    {
        let _ = self.frames.pop();
        assert(self.frames() =~= if old(self).frames().len() > 0 {
            old(self).frames().drop_last()
        } else {
            old(self).frames()
        });
    }

    /// The number of active frames.
    pub fn frame_count(&self) -> (n: usize)
        ensures
            n == self.frames().len(),
    {
        self.frames.len()
    }

    /// The type of variable `var_id`, if the variable and its type are registered.
    pub fn get_type(&self, var_id: u32) -> (typ: Option<&PrintableType>)
        ensures
            match typ {
                Some(t) => self.type_of(var_id) == Some(t@),
                None => self.type_of(var_id).is_none(),
            },
    {
        match self.id_to_type.get(&var_id) {
            Some(type_id) => match self.types.get(type_id) {
                Some(t) => Some(t),
                None => None,
            },
            None => None,
        }
    }

    /// The value of variable `var_id` in the top frame, if it is live there.
    pub fn get(&self, var_id: u32) -> (value: Option<&PrintableValue>)
        requires
            self.frames().len() > 0,
        ensures
            match value {
                Some(v) => self.frames().last().1.contains_key(var_id) && self.frames().last().1[var_id]
                    == v@,
                None => !self.frames().last().1.contains_key(var_id),
            },
    {
        let top = &self.frames[self.frames.len() - 1];
        match top.1.get(&var_id) {
            Some(v) => Some(v),
            None => None,
        }
    }

    /// Removes variable `var_id` from the top frame. Older frames keep theirs.
    pub fn drop(&mut self, var_id: u32)
        requires
            old(self).frames().len() > 0,
        ensures
            final(self).frames() == old(self).frames().update(
                old(self).frames().len() - 1,
                (old(self).frames().last().0, old(self).frames().last().1.remove(var_id)),
            ),
            final(self).names() == old(self).names(),
            final(self).type_ids() == old(self).type_ids(),
            final(self).types() == old(self).types(),
    {
        let top = self.frames.pop();
        match top {
            Some((fn_id, mut vars)) => {
                let _ = vars.remove(&var_id);
                assert(frame_view(vars@) =~= old(self).frames().last().1.remove(var_id));
                self.frames.push((fn_id, vars));
            },
            None => {},
        }
        assert(self.frames() =~= old(self).frames().update(
            old(self).frames().len() - 1,
            (old(self).frames().last().0, old(self).frames().last().1.remove(var_id)),
        ));
    }

    /// What `try_assign` does: the store's frames afterwards, or why it refuses.
    pub open spec fn spec_assign(&self, var_id: u32, values: Seq<FieldElement>) -> Result<
        Seq<(u32, Map<u32, ValueView>)>,
        StoreError,
    > {
        match self.type_of(var_id) {
            None => Err(StoreError::UnknownType),
            Some(t) => if self.frames().len() == 0 {
                Err(StoreError::NoFrame)
            } else {
                match spec_decode(values, t) {
                    Err(e) => Err(StoreError::Decode(e)),
                    Ok((value, _)) => Ok(
                        self.frames().update(
                            self.frames().len() - 1,
                            (self.frames().last().0, self.frames().last().1.insert(var_id, value)),
                        ),
                    ),
                }
            },
        }
    }

    /// Decodes `values` as a value of the variable's type and binds the
    /// variable to it in the top frame. On an error the store is unchanged.
    pub fn try_assign(&mut self, var_id: u32, values: &[FieldElement]) -> (result: Result<
        (),
        StoreError,
    >)
        ensures
            final(self).names() == old(self).names(),
            final(self).type_ids() == old(self).type_ids(),
            final(self).types() == old(self).types(),
            match (result, old(self).spec_assign(var_id, values@)) {
                (Ok(()), Ok(frames)) => final(self).frames() == frames,
                (Err(e), Err(expected)) => e == expected && final(self).frames() == old(
                    self,
                ).frames(),
                _ => false,
            },
    {
        let value = match self.get_type(var_id) {
            None => {
                return Err(StoreError::UnknownType);
            },
            Some(typ) => {
                if self.frames.len() == 0 {
                    return Err(StoreError::NoFrame);
                }
                let mut stream = FieldIterator::new(slice_to_vec(values));
                match try_decode_value(&mut stream, typ) {
                    Ok(v) => v,
                    Err(e) => {
                        return Err(StoreError::Decode(e));
                    },
                }
            },
        };
        let top = self.frames.pop();
        match top {
            Some((fn_id, mut vars)) => {
                let ghost model = value@;
                let _ = vars.insert(var_id, value);
                assert(frame_view(vars@) =~= old(self).frames().last().1.insert(var_id, model));
                self.frames.push((fn_id, vars));
            },
            None => {},
        }
        assert(self.frames() =~= old(self).frames().update(
            old(self).frames().len() - 1,
            (old(self).frames().last().0, old(self).frames().last().1.insert(var_id, value@)),
        ));
        Ok(())
    }

    /// Decodes `values` as a value of the variable's type and binds the
    /// variable to it in the top frame.
    pub fn assign(&mut self, var_id: u32, values: &[FieldElement])
        requires
            old(self).spec_assign(var_id, values@).is_ok(),
        ensures
            Ok::<Seq<(u32, Map<u32, ValueView>)>, StoreError>(final(self).frames()) == old(
                self,
            ).spec_assign(var_id, values@),
            final(self).names() == old(self).names(),
            final(self).type_ids() == old(self).type_ids(),
            final(self).types() == old(self).types(),
    {
        let _ = self.try_assign(var_id, values);
    }

    /// What `try_assign_field` does: the store's frames afterwards, or why it refuses.
    pub open spec fn spec_assign_field(
        &self,
        var_id: u32,
        indexes: Seq<u32>,
        values: Seq<FieldElement>,
    ) -> Result<Seq<(u32, Map<u32, ValueView>)>, StoreError> {
        if self.frames().len() == 0 {
            Err(StoreError::NoFrame)
        } else if !self.frames().last().1.contains_key(var_id) {
            Err(StoreError::UnknownVariable)
        } else {
            match self.type_of(var_id) {
                None => Err(StoreError::UnknownType),
                Some(t) => match spec_assign_at(self.frames().last().1[var_id], t, indexes, values) {
                    Err(e) => Err(e),
                    Ok(value) => Ok(
                        self.frames().update(
                            self.frames().len() - 1,
                            (self.frames().last().0, self.frames().last().1.insert(var_id, value)),
                        ),
                    ),
                },
            }
        }
    }

    /// Replaces the part of the variable's value that `indexes` leads to, from
    /// the variable inwards, by the value that `values` decodes to under the
    /// part's type. On an error the store is unchanged.
    pub fn try_assign_field(&mut self, var_id: u32, indexes: Vec<u32>, values: &[FieldElement]) -> (result:
        Result<(), StoreError>)
        ensures
            final(self).names() == old(self).names(),
            final(self).type_ids() == old(self).type_ids(),
            final(self).types() == old(self).types(),
            match (result, old(self).spec_assign_field(var_id, indexes@, values@)) {
                (Ok(()), Ok(frames)) => final(self).frames() == frames,
                (Err(e), Err(expected)) => e == expected && final(self).frames() == old(
                    self,
                ).frames(),
                _ => false,
            },
    {
        if self.frames.len() == 0 {
            return Err(StoreError::NoFrame);
        }
        let value = {
            let top = &self.frames[self.frames.len() - 1];
            match top.1.get(&var_id) {
                None => {
                    return Err(StoreError::UnknownVariable);
                },
                Some(current) => match self.get_type(var_id) {
                    None => {
                        return Err(StoreError::UnknownType);
                    },
                    Some(typ) => {
                        let mut stream = FieldIterator::new(slice_to_vec(values));
                        assert(indexes@.skip(0) =~= indexes@);
                        match assign_at(current, typ, &indexes, 0, &mut stream) {
                            Ok(v) => v,
                            Err(e) => {
                                return Err(e);
                            },
                        }
                    },
                },
            }
        };
        let top = self.frames.pop();
        match top {
            Some((fn_id, mut vars)) => {
                let ghost model = value@;
                let _ = vars.insert(var_id, value);
                assert(frame_view(vars@) =~= old(self).frames().last().1.insert(var_id, model));
                self.frames.push((fn_id, vars));
            },
            None => {},
        }
        assert(self.frames() =~= old(self).frames().update(
            old(self).frames().len() - 1,
            (old(self).frames().last().0, old(self).frames().last().1.insert(var_id, value@)),
        ));
        Ok(())
    }

    /// Replaces the part of the variable's value that `indexes` leads to.
    pub fn assign_field(&mut self, var_id: u32, indexes: Vec<u32>, values: &[FieldElement])
        requires
            old(self).spec_assign_field(var_id, indexes@, values@).is_ok(),
        ensures
            Ok::<Seq<(u32, Map<u32, ValueView>)>, StoreError>(final(self).frames()) == old(
                self,
            ).spec_assign_field(var_id, indexes@, values@),
            final(self).names() == old(self).names(),
            final(self).type_ids() == old(self).type_ids(),
            final(self).types() == old(self).types(),
    {
        let _ = self.try_assign_field(var_id, indexes, values);
    }

    /// Assignment through a reference: not supported, the store is unchanged.
    pub fn assign_deref(&mut self, _var_id: u32, _values: &[FieldElement]) -> (result: Result<
        (),
        StoreError,
    >)
        ensures
            result == Err::<(), StoreError>(StoreError::Unsupported),
            *final(self) == *old(self),
    {
        Err(StoreError::Unsupported)
    }
}

/// The models of the variables of a reported frame.
pub open spec fn variable_views(variables: Seq<(String, PrintableValue, PrintableType)>) -> Seq<
    (Seq<char>, ValueView, TypeView),
> {
    Seq::new(variables.len(), |j: int| (variables[j].0@, variables[j].1@, variables[j].2@))
}

/// The models of a list of names.
pub open spec fn name_views(names: Seq<String>) -> Seq<Seq<char>> {
    Seq::new(names.len(), |j: int| names[j]@)
}

impl DebugVars {
    /// Whether `reported` lists, in the order of `ids`, the variables of
    /// `frame` that have a registered name and type: each once, with its name,
    /// its value and its type.
    pub open spec fn reports_frame(
        &self,
        reported: Seq<(Seq<char>, ValueView, TypeView)>,
        ids: Seq<u32>,
        frame: Map<u32, ValueView>,
    ) -> bool {
        &&& ids.no_duplicates()
        &&& forall|id: u32|
            ids.contains(id) <==> frame.contains_key(id) && self.names().contains_key(id)
                && self.type_of(id).is_some()
        &&& reported.len() == ids.len()
        &&& forall|j: int|
            0 <= j < ids.len() ==> #[trigger] reported[j] == (
                self.names()[ids[j]],
                frame[ids[j]],
                self.type_of(ids[j]).unwrap(),
            )
    }

    /// Whether `out` shows frame `i` of the store: the function's name and
    /// parameters from its registered type, and its live variables in some order.
    pub open spec fn shows_frame(&self, out: DebugStackFrame, i: int) -> bool {
        &&& self.type_of(self.frames()[i].0) matches Some(TypeView::Function { name, arguments })
        &&& out.function_name@ == name
        &&& name_views(out.function_params@) == parameter_names(arguments)
        &&& exists|ids: Seq<u32>|
            self.reports_frame(variable_views(out.variables@), ids, self.frames()[i].1)
    }

    /// Whether the function of every frame has a registered function type.
    pub open spec fn frames_are_calls(&self) -> bool {
        forall|i: int|
            0 <= i < self.frames().len() ==> (#[trigger] self.type_of(
                self.frames()[i].0,
            )) matches Some(TypeView::Function { .. })
    }

    /// Registers the name and the type id of each variable of `vars`.
    pub fn insert_variables(&mut self, vars: &HashMap<u32, (String, u32)>)
        ensures
            final(self).names() == old(self).names().union_prefer_right(
                vars@.map_values(|e: (String, u32)| e.0@),
            ),
            final(self).type_ids() == old(self).type_ids().union_prefer_right(
                vars@.map_values(|e: (String, u32)| e.1),
            ),
            final(self).types() == old(self).types(),
            final(self).frames() == old(self).frames(),
    {
        let ghost all = spec_hash_map_iter(vars).remaining();
        let ghost mut done: Set<u32> = Set::empty();
        let ghost before = *self;
        for pair in it: vars.iter()
            invariant
                it.seq() == all,
                all == spec_hash_map_iter(vars).remaining(),
                forall|j: int| 0 <= j < it.index() ==> done.contains(*(#[trigger] all[j]).0),
                forall|id: u32| done.contains(id) ==> vars@.contains_key(id),
                self.id_to_name@.dom() == before.id_to_name@.dom().union(done),
                self.id_to_type@.dom() == before.id_to_type@.dom().union(done),
                forall|id: u32|
                    done.contains(id) ==> self.id_to_name@[id]@ == vars@[id].0@
                        && self.id_to_type@[id] == vars@[id].1,
                forall|id: u32|
                    !done.contains(id) && before.id_to_name@.contains_key(id)
                        ==> self.id_to_name@[id] == before.id_to_name@[id],
                forall|id: u32|
                    !done.contains(id) && before.id_to_type@.contains_key(id)
                        ==> self.id_to_type@[id] == before.id_to_type@[id],
                self.types == before.types,
                self.frames == before.frames,
        {
            let key = *pair.0;
            assert(vars@.contains_key(*all[it.index()].0));
            assert(vars@[*all[it.index()].0] == *all[it.index()].1);
            let _ = self.id_to_name.insert(key, pair.1.0.clone());
            let _ = self.id_to_type.insert(key, pair.1.1);
            proof {
                done = done.insert(key);
                assert(self.id_to_name@.dom() =~= before.id_to_name@.dom().union(done));
                assert(self.id_to_type@.dom() =~= before.id_to_type@.dom().union(done));
            }
        }
        proof {
            assert forall|id: u32| vars@.contains_key(id) implies done.contains(id) by {
                assert(all.contains((&id, &vars@[id])));
                let j = choose|j: int| 0 <= j < all.len() && all[j] == (&id, &vars@[id]);
                assert(done.contains(*all[j].0));
            }
            assert(done =~= vars@.dom());
            assert(self.names() =~= before.names().union_prefer_right(
                vars@.map_values(|e: (String, u32)| e.0@),
            ));
            assert(self.type_ids() =~= before.type_ids().union_prefer_right(
                vars@.map_values(|e: (String, u32)| e.1),
            ));
            assert(self.frames() =~= before.frames());
        }
    }

    /// Registers each type of `types` under its id.
    pub fn insert_types(&mut self, types: &HashMap<u32, PrintableType>)
        ensures
            final(self).types() == old(self).types().union_prefer_right(
                types@.map_values(|t: PrintableType| t@),
            ),
            final(self).names() == old(self).names(),
            final(self).type_ids() == old(self).type_ids(),
            final(self).frames() == old(self).frames(),
    {
        let ghost all = spec_hash_map_iter(types).remaining();
        let ghost mut done: Set<u32> = Set::empty();
        let ghost before = *self;
        for pair in it: types.iter()
            invariant
                it.seq() == all,
                all == spec_hash_map_iter(types).remaining(),
                forall|j: int| 0 <= j < it.index() ==> done.contains(*(#[trigger] all[j]).0),
                forall|id: u32| done.contains(id) ==> types@.contains_key(id),
                self.types@.dom() == before.types@.dom().union(done),
                forall|id: u32| done.contains(id) ==> self.types@[id]@ == types@[id]@,
                forall|id: u32|
                    !done.contains(id) && before.types@.contains_key(id) ==> self.types@[id]
                        == before.types@[id],
                self.id_to_name == before.id_to_name,
                self.id_to_type == before.id_to_type,
                self.frames == before.frames,
        {
            let key = *pair.0;
            assert(types@.contains_key(*all[it.index()].0));
            assert(types@[*all[it.index()].0] == *all[it.index()].1);
            let _ = self.types.insert(key, pair.1.clone());
            proof {
                done = done.insert(key);
                assert(self.types@.dom() =~= before.types@.dom().union(done));
            }
        }
        proof {
            assert forall|id: u32| types@.contains_key(id) implies done.contains(id) by {
                assert(all.contains((&id, &types@[id])));
                let j = choose|j: int| 0 <= j < all.len() && all[j] == (&id, &types@[id]);
                assert(done.contains(*all[j].0));
            }
            assert(done =~= types@.dom());
            assert(self.types() =~= before.types().union_prefer_right(
                types@.map_values(|t: PrintableType| t@),
            ));
            assert(self.frames() =~= before.frames());
        }
    }

    /// The name and the type of variable `var_id`, where both are registered.
    fn lookup_var(&self, var_id: u32) -> (found: Option<(&String, &PrintableType)>)
        ensures
            match found {
                Some((name, typ)) => self.names().contains_key(var_id) && self.names()[var_id]
                    == name@ && self.type_of(var_id) == Some(typ@),
                None => !self.names().contains_key(var_id) || self.type_of(var_id).is_none(),
            },
    {
        match self.id_to_name.get(&var_id) {
            None => None,
            Some(name) => match self.get_type(var_id) {
                None => None,
                Some(typ) => Some((name, typ)),
            },
        }
    }

    fn frame_variables(&self, frame: &HashMap<u32, PrintableValue>) -> (out: Vec<
        (String, PrintableValue, PrintableType),
    >)
        ensures
            exists|ids: Seq<u32>| self.reports_frame(variable_views(out@), ids, frame_view(frame@)),
    {
        let mut out: Vec<(String, PrintableValue, PrintableType)> = Vec::new();
        let ghost all = spec_hash_map_iter(frame).remaining();
        let ghost mut ids: Seq<u32> = Seq::empty();
        let ghost mut from: Seq<int> = Seq::empty();
        let ghost model = frame_view(frame@);
        for pair in it: frame.iter()
            invariant
                it.seq() == all,
                all == spec_hash_map_iter(frame).remaining(),
                all.no_duplicates(),
                model == frame_view(frame@),
                ids.len() == out.len(),
                from.len() == ids.len(),
                forall|j: int|
                    0 <= j < ids.len() ==> 0 <= #[trigger] from[j] < it.index() && *all[from[j]].0
                        == ids[j],
                forall|k: int|
                    0 <= k < it.index() && self.names().contains_key(*(#[trigger] all[k]).0)
                        && self.type_of(*all[k].0).is_some() ==> ids.contains(*all[k].0),
                forall|j: int|
                    0 <= j < ids.len() ==> model.contains_key(#[trigger] ids[j])
                        && self.names().contains_key(ids[j]) && self.type_of(ids[j]).is_some(),
                ids.no_duplicates(),
                forall|j: int|
                    0 <= j < ids.len() ==> (#[trigger] out[j]).0@ == self.names()[ids[j]]
                        && out[j].1@ == model[ids[j]] && out[j].2@ == self.type_of(
                        ids[j],
                    ).unwrap(),
        {
            let key = *pair.0;
            let ghost at = it.index();
            proof {
                assert(frame@.contains_key(*all[at].0));
                assert(frame@[*all[at].0] == *all[at].1);
                assert forall|q: int| 0 <= q < ids.len() implies #[trigger] ids[q] != key by {
                    let r = from[q];
                    if ids[q] == key {
                        assert(frame@.contains_key(*all[r].0));
                        assert(frame@[*all[r].0] == *all[r].1);
                        assert(all[r] == all[at]);
                    }
                }
            }
            match self.lookup_var(key) {
                Some((name, typ)) => {
                    out.push((name.clone(), pair.1.clone(), typ.clone()));
                    proof {
                        let ghost prev = ids;
                        ids = ids.push(key);
                        from = from.push(at);
                        assert forall|r: int|
                            0 <= r < at + 1 && self.names().contains_key(*(#[trigger] all[r]).0)
                                && self.type_of(*all[r].0).is_some() implies ids.contains(
                            *all[r].0,
                        ) by {
                            if r < at {
                                assert(prev.contains(*all[r].0));
                                let q = choose|q: int|
                                    0 <= q < prev.len() && prev[q] == *all[r].0;
                                assert(ids[q] == *all[r].0);
                            } else {
                                assert(ids[prev.len() as int] == key);
                            }
                        }
                    }
                },
                None => {},
            }
        }
        proof {
            assert forall|id: u32|
                ids.contains(id) <==> model.contains_key(id) && self.names().contains_key(id)
                    && self.type_of(id).is_some() by {
                if model.contains_key(id) && self.names().contains_key(id) && self.type_of(
                    id,
                ).is_some() {
                    assert(all.contains((&id, &frame@[id])));
                    let k = choose|k: int| 0 <= k < all.len() && all[k] == (&id, &frame@[id]);
                    assert(ids.contains(*all[k].0));
                }
                if ids.contains(id) {
                    let j = choose|j: int| 0 <= j < ids.len() && ids[j] == id;
                    assert(model.contains_key(ids[j]));
                }
            }
            assert(self.reports_frame(variable_views(out@), ids, model));
        }
        out
    }

    /// Every active frame, oldest first, with the function's name, its
    /// parameters and its live variables; `None` where the function of a
    /// frame has no registered function type.
    pub fn try_get_variables(&self) -> (report: Option<Vec<DebugStackFrame>>)
        ensures
            report.is_some() == self.frames_are_calls(),
            report matches Some(out) ==> out.len() == self.frames().len() && forall|i: int|
                0 <= i < out.len() ==> self.shows_frame(#[trigger] out[i], i),
    {
        let mut out: Vec<DebugStackFrame> = Vec::new();
        let mut i: usize = 0;
        while i < self.frames.len()
            invariant
                0 <= i <= self.frames.len(),
                out.len() == i,
                forall|k: int|
                    0 <= k < i ==> (#[trigger] self.type_of(self.frames()[k].0)) matches Some(
                        TypeView::Function { .. },
                    ),
                forall|k: int| 0 <= k < i ==> self.shows_frame(#[trigger] out[k], k),
            decreases self.frames.len() - i,
        {
            let frame = &self.frames[i];
            assert(self.frames()[i as int] == (frame.0, frame_view(frame.1@)));
            match self.get_type(frame.0) {
                Some(PrintableType::Function { name, arguments }) => {
                    let mut params: Vec<String> = Vec::new();
                    let mut k: usize = 0;
                    proof {
                        lemma_field_views(arguments@);
                    }
                    while k < arguments.len()
                        invariant
                            0 <= k <= arguments.len(),
                            params.len() == k,
                            forall|j: int| 0 <= j < k ==> #[trigger] params[j]@ == arguments[j].0@,
                        decreases arguments.len() - k,
                    {
                        params.push(arguments[k].0.clone());
                        k += 1;
                    }
                    let variables = self.frame_variables(&frame.1);
                    let shown = DebugStackFrame {
                        function_name: name.clone(),
                        function_params: params,
                        variables,
                    };
                    proof {
                        assert(name_views(shown.function_params@) =~= parameter_names(
                            field_views(arguments@),
                        ));
                        assert(self.type_of(self.frames()[i as int].0) == Some(
                            TypeView::Function {
                                name: name@,
                                arguments: field_views(arguments@),
                            },
                        ));
                        assert(shown.function_name@ == name@);
                        let ids = choose|ids: Seq<u32>|
                            self.reports_frame(
                                variable_views(shown.variables@),
                                ids,
                                frame_view(frame.1@),
                            );
                        assert(self.reports_frame(
                            variable_views(shown.variables@),
                            ids,
                            self.frames()[i as int].1,
                        ));
                        assert(self.shows_frame(shown, i as int));
                    }
                    out.push(shown);
                },
                _ => {
                    assert(!(self.type_of(self.frames()[i as int].0) matches Some(
                        TypeView::Function { .. },
                    )));
                    return None;
                },
            }
            i += 1;
        }
        Some(out)
    }

    /// Every active frame, oldest first, with the function's name, its
    /// parameters and its live variables.
    pub fn get_variables(&self) -> (out: Vec<DebugStackFrame>)
        requires
            self.frames_are_calls(),
        ensures
            out.len() == self.frames().len(),
            forall|i: int| 0 <= i < out.len() ==> self.shows_frame(#[trigger] out[i], i),
    {
        match self.try_get_variables() {
            Some(out) => out,
            None => Vec::new(),
        }
    }
}

/// Replacing the value of an entry keeps the position of every name.
pub proof fn lemma_entry_position_update(
    entries: Seq<(Seq<char>, ValueView)>,
    at: int,
    part: ValueView,
    name: Seq<char>,
)
    requires
        0 <= at < entries.len(),
    ensures
        entry_position(entries.update(at, (entries[at].0, part)), name) == entry_position(
            entries,
            name,
        ),
    decreases entries.len(),
{
    let updated = entries.update(at, (entries[at].0, part));
    if entries[0].0 != name {
        if at == 0 {
            assert(updated.drop_first() =~= entries.drop_first());
        } else {
            assert(updated.drop_first() =~= entries.drop_first().update(
                at - 1,
                (entries.drop_first()[at - 1].0, part),
            ));
            lemma_entry_position_update(entries.drop_first(), at - 1, part, name);
        }
    }
}

/// Whether no struct type inside `t`, or `t` itself, has two fields of one name.
pub open spec fn fields_are_distinct(t: TypeView) -> bool
    decreases t,
{
    match t {
        TypeView::Array { typ, .. } => fields_are_distinct(*typ),
        TypeView::Tuple { types } => forall|i: int|
            0 <= i < types.len() ==> fields_are_distinct(#[trigger] types[i]),
        TypeView::Struct { fields, .. } => {
            &&& forall|i: int, j: int|
                0 <= i < j < fields.len() ==> (#[trigger] fields[i]).0 != (#[trigger] fields[j]).0
            &&& forall|i: int| 0 <= i < fields.len() ==> fields_are_distinct((#[trigger] fields[i]).1)
        },
        _ => true,
    }
}

/// Whether no struct type inside `typ`, or `typ` itself, has two fields of
/// one name.
pub fn has_distinct_fields(typ: &PrintableType) -> (distinct: bool)
    ensures
        distinct == fields_are_distinct(typ@),
    decreases typ,
{
    match typ {
        PrintableType::Array { typ: element, .. } => has_distinct_fields(&**element),
        PrintableType::Tuple { types } => {
            proof {
                lemma_type_views(types@);
            }
            let mut i: usize = 0;
            while i < types.len()
                invariant
                    0 <= i <= types.len(),
                    typ@ matches TypeView::Tuple { types: all } && all == type_views(types@),
                    type_views(types@).len() == types.len(),
                    forall|k: int|
                        0 <= k < types.len() ==> #[trigger] type_views(types@)[k] == types[k]@,
                    forall|k: int|
                        0 <= k < i ==> fields_are_distinct(#[trigger] type_views(types@)[k]),
                    forall|k: int| 0 <= k < types.len() ==> decreases_to!(typ => types[k]),
                decreases types.len() - i,
            {
                if !has_distinct_fields(&types[i]) {
                    assert(!fields_are_distinct(type_views(types@)[i as int]));
                    return false;
                }
                i += 1;
            }
            true
        },
        PrintableType::Struct { fields, .. } => {
            proof {
                lemma_field_views(fields@);
            }
            let ghost views = field_views(fields@);
            let mut j: usize = 0;
            while j < fields.len()
                invariant
                    0 <= j <= fields.len(),
                    typ@ matches TypeView::Struct { fields: all, .. } && all == views,
                    views == field_views(fields@),
                    views.len() == fields.len(),
                    forall|k: int|
                        0 <= k < fields.len() ==> #[trigger] views[k] == (fields[k].0@, fields[k].1@),
                    forall|a: int, b: int|
                        0 <= a < b < j ==> (#[trigger] views[a]).0 != (#[trigger] views[b]).0,
                    forall|k: int| 0 <= k < j ==> fields_are_distinct((#[trigger] views[k]).1),
                    forall|k: int| 0 <= k < fields.len() ==> decreases_to!(typ => fields[k]),
                decreases fields.len() - j,
            {
                if !has_distinct_fields(&fields[j].1) {
                    assert(!fields_are_distinct(views[j as int].1));
                    return false;
                }
                let mut i: usize = 0;
                while i < j
                    invariant
                        0 <= i <= j < fields.len(),
                        typ@ matches TypeView::Struct { fields: all, .. } && all == views,
                        views == field_views(fields@),
                        views.len() == fields.len(),
                        forall|k: int|
                            0 <= k < fields.len() ==> #[trigger] views[k] == (
                                fields[k].0@,
                                fields[k].1@,
                            ),
                        forall|a: int| 0 <= a < i ==> (#[trigger] views[a]).0 != views[j as int].0,
                    decreases j - i,
                {
                    if fields[i].0 == fields[j].0 {
                        assert(views[i as int].0 == views[j as int].0);
                        return false;
                    }
                    i += 1;
                }
                j += 1;
            }
            true
        },
        _ => true,
    }
}

/// Whether two paths part ways: at some step, after equal steps, they take
/// different indexes.
pub open spec fn paths_diverge(p: Seq<u32>, q: Seq<u32>) -> bool {
    exists|k: int|
        0 <= k < p.len() && k < q.len() && p[k] != q[k] && p.take(k) == q.take(k)
}

/// After an assignment at `path`, the value at `path` is the one that the
/// stream decodes to under the type of that part.
pub proof fn lemma_assigned_part(
    v: ValueView,
    t: TypeView,
    path: Seq<u32>,
    s: Seq<FieldElement>,
)
    requires
        spec_assign_at(v, t, path, s).is_ok(),
    ensures
        spec_value_at(v, t, path) matches Some((_, part_type)) && spec_decode(s, part_type).is_ok()
            && spec_value_at(spec_assign_at(v, t, path, s).unwrap(), t, path) == Some(
            (spec_decode(s, part_type).unwrap().0, part_type),
        ),
    decreases path.len(),
{
    if path.len() > 0 {
        let i = path[0] as int;
        match (v, t) {
            (ValueView::Vec(items), TypeView::Array { length, typ }) => {
                lemma_assigned_part(items[i], *typ, path.drop_first(), s);
            },
            (ValueView::Struct(entries), TypeView::Struct { fields, .. }) => {
                let at = entry_position(entries, fields[i].0);
                lemma_entry_position(entries, fields[i].0);
                lemma_assigned_part(entries[at].1, fields[i].1, path.drop_first(), s);
                let part = spec_assign_at(entries[at].1, fields[i].1, path.drop_first(), s).unwrap();
                lemma_entry_position_update(entries, at, part, fields[i].0);
            },
            (ValueView::Vec(items), TypeView::Tuple { types }) => {
                lemma_assigned_part(items[i], types[i], path.drop_first(), s);
            },
            _ => {},
        }
    }
}

/// An assignment at `path` changes the value nowhere else: what any path
/// that parts ways with `path` leads to is what it led to before.
pub proof fn lemma_assign_elsewhere(
    v: ValueView,
    t: TypeView,
    path: Seq<u32>,
    s: Seq<FieldElement>,
    other: Seq<u32>,
)
    requires
        spec_assign_at(v, t, path, s).is_ok(),
        paths_diverge(path, other),
        fields_are_distinct(t),
    ensures
        spec_value_at(spec_assign_at(v, t, path, s).unwrap(), t, other) == spec_value_at(
            v,
            t,
            other,
        ),
    decreases path.len(),
{
    let k = choose|k: int|
        0 <= k < path.len() && k < other.len() && path[k] != other[k] && path.take(k)
            == other.take(k);
    let i = path[0] as int;
    let j = other[0] as int;
    if k > 0 {
        assert(path.take(k)[0] == other.take(k)[0]);
        assert(path.drop_first().take(k - 1) =~= path.take(k).drop_first());
        assert(other.drop_first().take(k - 1) =~= other.take(k).drop_first());
        assert(path.drop_first()[k - 1] != other.drop_first()[k - 1]);
        assert(paths_diverge(path.drop_first(), other.drop_first()));
    }
    match (v, t) {
        (ValueView::Vec(items), TypeView::Array { length, typ }) => {
            if k > 0 {
                lemma_assign_elsewhere(items[i], *typ, path.drop_first(), s, other.drop_first());
            }
        },
        (ValueView::Struct(entries), TypeView::Struct { fields, .. }) => {
            let at = entry_position(entries, fields[i].0);
            lemma_entry_position(entries, fields[i].0);
            let part = spec_assign_at(entries[at].1, fields[i].1, path.drop_first(), s).unwrap();
            if k > 0 {
                lemma_assign_elsewhere(
                    entries[at].1,
                    fields[i].1,
                    path.drop_first(),
                    s,
                    other.drop_first(),
                );
                lemma_entry_position_update(entries, at, part, fields[i].0);
            } else if j < fields.len() {
                lemma_entry_position_update(entries, at, part, fields[j].0);
                lemma_entry_position(entries, fields[j].0);
                lemma_entry_position(entries, fields[i].0);
                assert(fields[i].0 != fields[j].0);
            }
        },
        (ValueView::Vec(items), TypeView::Tuple { types }) => {
            if k > 0 {
                lemma_assign_elsewhere(items[i], types[i], path.drop_first(), s, other.drop_first());
            }
        },
        _ => {},
    }
}

impl DebugVars {
    /// An assignment to a part of a variable changes that part and nothing
    /// else: the frames below the top one, the function of the top frame and
    /// every other variable of it stay as they were; the part at `indexes` is
    /// the value that `values` decodes to under the part's type; and, where no
    /// struct type of the variable has two fields of one name, every part that
    /// a path leads to which parts ways with `indexes` is what it was.
    pub proof fn lemma_assign_field_changes_one_part(
        &self,
        var_id: u32,
        indexes: Seq<u32>,
        values: Seq<FieldElement>,
    )
        requires
            self.spec_assign_field(var_id, indexes, values).is_ok(),
        ensures
            ({
                let before = self.frames();
                let after = self.spec_assign_field(var_id, indexes, values).unwrap();
                let t = self.type_of(var_id).unwrap();
                let old_value = before.last().1[var_id];
                let new_value = after.last().1[var_id];
                &&& after.len() == before.len()
                &&& after.drop_last() == before.drop_last()
                &&& after.last().0 == before.last().0
                &&& after.last().1.dom() == before.last().1.dom()
                &&& forall|id: u32|
                    id != var_id && before.last().1.contains_key(id) ==> #[trigger] after.last().1[id]
                        == before.last().1[id]
                &&& spec_value_at(old_value, t, indexes) matches Some((_, part_type))
                    && spec_decode(values, part_type).is_ok() && spec_value_at(
                    new_value,
                    t,
                    indexes,
                ) == Some((spec_decode(values, part_type).unwrap().0, part_type))
                &&& fields_are_distinct(t) ==> forall|other: Seq<u32>|
                    paths_diverge(indexes, other) ==> #[trigger] spec_value_at(new_value, t, other)
                        == spec_value_at(old_value, t, other)
            }),
    {
        let before = self.frames();
        let after = self.spec_assign_field(var_id, indexes, values).unwrap();
        let t = self.type_of(var_id).unwrap();
        let old_value = before.last().1[var_id];
        let new_value = after.last().1[var_id];
        assert(after.drop_last() =~= before.drop_last());
        assert(after.last().1.dom() =~= before.last().1.dom());
        lemma_assigned_part(old_value, t, indexes, values);
        if fields_are_distinct(t) {
            assert forall|other: Seq<u32>| paths_diverge(indexes, other) implies #[trigger] spec_value_at(
                new_value,
                t,
                other,
            ) == spec_value_at(old_value, t, other) by {
                lemma_assign_elsewhere(old_value, t, indexes, values, other);
            }
        }
    }

    /// A variable that was dropped from a frame is not among those reported
    /// for the frame.
    pub proof fn lemma_dropped_not_reported(
        &self,
        reported: Seq<(Seq<char>, ValueView, TypeView)>,
        ids: Seq<u32>,
        frame: Map<u32, ValueView>,
        var_id: u32,
    )
        requires
            self.reports_frame(reported, ids, frame.remove(var_id)),
        ensures
            !ids.contains(var_id),
    {
    }
}

/// After a frame is opened and each of `ids` is assigned in turn, the live
/// variables of the top frame are exactly `ids`: `stores[k]` is the store
/// before the assignment of `ids[k]`.
pub proof fn lemma_parameters_live(
    stores: Seq<DebugVars>,
    ids: Seq<u32>,
    values: Seq<Seq<FieldElement>>,
)
    requires
        stores.len() == ids.len() + 1,
        values.len() == ids.len(),
        stores[0].frames().len() > 0,
        stores[0].frames().last().1 == Map::<u32, ValueView>::empty(),
        forall|k: int|
            0 <= k < ids.len() ==> stores[k].spec_assign(#[trigger] ids[k], values[k]) == Ok::<
                Seq<(u32, Map<u32, ValueView>)>,
                StoreError,
            >(stores[k + 1].frames()),
    ensures
        stores.last().frames().len() == stores[0].frames().len(),
        stores.last().frames().last().1.dom() == ids.to_set(),
    decreases ids.len(),
{
    if ids.len() == 0 {
        assert(ids.to_set() =~= Set::<u32>::empty());
        assert(stores.last().frames().last().1.dom() =~= Set::<u32>::empty());
    } else {
        let n = ids.len() as int;
        let front = stores.drop_last();
        assert forall|j: int| 0 <= j < n - 1 implies front[j].spec_assign(
            #[trigger] ids.drop_last()[j],
            values.drop_last()[j],
        ) == Ok::<Seq<(u32, Map<u32, ValueView>)>, StoreError>(front[j + 1].frames()) by {
            assert(ids.drop_last()[j] == ids[j]);
            assert(values.drop_last()[j] == values[j]);
            assert(front[j] == stores[j] && front[j + 1] == stores[j + 1]);
        }
        lemma_parameters_live(stores.drop_last(), ids.drop_last(), values.drop_last());
        assert(stores.drop_last().last() == stores[n - 1]);
        assert(stores[n - 1].spec_assign(ids[n - 1], values[n - 1]) == Ok::<
            Seq<(u32, Map<u32, ValueView>)>,
            StoreError,
        >(stores[n].frames()));
        assert(ids.to_set() =~= ids.drop_last().to_set().insert(ids[n - 1])) by {
            assert forall|x: u32| ids.to_set().contains(x) <==> ids.drop_last().to_set().insert(
                ids[n - 1],
            ).contains(x) by {
                if ids.contains(x) {
                    let q = choose|q: int| 0 <= q < ids.len() && ids[q] == x;
                    if q < n - 1 {
                        assert(ids.drop_last()[q] == x);
                    }
                }
                if ids.drop_last().contains(x) {
                    let q = choose|q: int| 0 <= q < ids.drop_last().len() && ids.drop_last()[q] == x;
                    assert(ids[q] == x);
                }
                if x == ids[n - 1] {
                    assert(ids[n - 1] == x);
                }
            }
        }
        assert(stores.last().frames().last().1.dom() =~= ids.to_set());
    }
}

/// Whether `stores` are the stores of a call: in the first a frame was just
/// opened, each next one is the one before after `ids[k]` was assigned
/// `values[k]`, and the tables of names and types are the same in all.
pub open spec fn assigned_in_turn(
    stores: Seq<DebugVars>,
    ids: Seq<u32>,
    values: Seq<Seq<FieldElement>>,
) -> bool {
    &&& stores.len() == ids.len() + 1
    &&& values.len() == ids.len()
    &&& stores[0].frames().len() > 0
    &&& stores[0].frames().last().1 == Map::<u32, ValueView>::empty()
    &&& forall|k: int|
        0 <= k < ids.len() ==> stores[k].spec_assign(#[trigger] ids[k], values[k]) == Ok::<
            Seq<(u32, Map<u32, ValueView>)>,
            StoreError,
        >(stores[k + 1].frames())
    &&& forall|k: int|
        0 <= k < stores.len() ==> (#[trigger] stores[k]).names() == stores[0].names()
            && stores[k].type_ids() == stores[0].type_ids() && stores[k].types()
            == stores[0].types()
}

/// The value of parameter `k` after the parameters of a call were assigned
/// in turn, each id once: the value that its stream decodes to under its type.
pub proof fn lemma_parameters_values(
    stores: Seq<DebugVars>,
    ids: Seq<u32>,
    values: Seq<Seq<FieldElement>>,
    k: int,
)
    requires
        assigned_in_turn(stores, ids, values),
        ids.no_duplicates(),
        0 <= k < ids.len(),
    ensures
        stores[0].type_of(ids[k]) matches Some(t) && spec_decode(values[k], t) matches Ok(
            (value, _),
        ) && stores.last().frames().last().1.contains_key(ids[k])
            && stores.last().frames().last().1[ids[k]] == value,
    decreases ids.len(),
{
    let n = ids.len() as int;
    assert(stores[n - 1].spec_assign(ids[n - 1], values[n - 1]) == Ok::<
        Seq<(u32, Map<u32, ValueView>)>,
        StoreError,
    >(stores[n].frames()));
    assert(stores[n - 1].type_of(ids[n - 1]) == stores[0].type_of(ids[n - 1]));
    if k < n - 1 {
        let front = stores.drop_last();
        assert forall|j: int| 0 <= j < n - 1 implies front[j].spec_assign(
            #[trigger] ids.drop_last()[j],
            values.drop_last()[j],
        ) == Ok::<Seq<(u32, Map<u32, ValueView>)>, StoreError>(front[j + 1].frames()) by {
            assert(ids.drop_last()[j] == ids[j]);
            assert(values.drop_last()[j] == values[j]);
            assert(front[j] == stores[j] && front[j + 1] == stores[j + 1]);
        }
        assert forall|j: int| 0 <= j < front.len() implies (#[trigger] front[j]).names()
            == front[0].names() && front[j].type_ids() == front[0].type_ids() && front[j].types()
            == front[0].types() by {
            assert(stores[j].names() == stores[0].names());
        }
        assert(ids.drop_last().no_duplicates());
        lemma_parameters_values(front, ids.drop_last(), values.drop_last(), k);
        assert(front.last() == stores[n - 1]);
        assert(ids[k] != ids[n - 1]);
    }
}

impl DebugVars {
    /// What a reported frame holds: as a set, its variables are the live
    /// variables of the frame that have a registered name and type, each with
    /// its name, its value and its type.
    pub proof fn lemma_reported_variables(&self, out: DebugStackFrame, i: int)
        requires
            0 <= i < self.frames().len(),
            self.shows_frame(out, i),
        ensures
            variable_views(out.variables@).to_set() == Set::new(
                |e: (Seq<char>, ValueView, TypeView)|
                    exists|id: u32|
                        #[trigger] self.frames()[i].1.contains_key(id) && self.names().contains_key(
                            id,
                        ) && self.type_of(id).is_some() && e == (
                            self.names()[id],
                            self.frames()[i].1[id],
                            self.type_of(id).unwrap(),
                        ),
            ),
    {
        let reported = variable_views(out.variables@);
        let frame = self.frames()[i].1;
        let ids = choose|ids: Seq<u32>| self.reports_frame(reported, ids, frame);
        let live = Set::new(
            |e: (Seq<char>, ValueView, TypeView)|
                exists|id: u32|
                    #[trigger] frame.contains_key(id) && self.names().contains_key(id)
                        && self.type_of(id).is_some() && e == (
                        self.names()[id],
                        frame[id],
                        self.type_of(id).unwrap(),
                    ),
        );
        assert forall|e: (Seq<char>, ValueView, TypeView)| reported.to_set().contains(e)
            <==> live.contains(e) by {
            if reported.contains(e) {
                let j = choose|j: int| 0 <= j < reported.len() && reported[j] == e;
                assert(ids.contains(ids[j]));
                assert(frame.contains_key(ids[j]));
            }
            if live.contains(e) {
                let id = choose|id: u32|
                    #[trigger] frame.contains_key(id) && self.names().contains_key(id)
                        && self.type_of(id).is_some() && e == (
                        self.names()[id],
                        frame[id],
                        self.type_of(id).unwrap(),
                    );
                assert(ids.contains(id));
                let j = choose|j: int| 0 <= j < ids.len() && ids[j] == id;
                assert(reported[j] == e);
            }
        }
        assert(reported.to_set() =~= live);
    }
}

/// The frame of a call as it is reported after its parameters were assigned
/// in turn, each id once and each with a registered name: its variables are,
/// as a set, exactly the parameters, each with its name, the value that its
/// stream decodes to under its type, and its type.
pub proof fn lemma_parameters_reported(
    stores: Seq<DebugVars>,
    ids: Seq<u32>,
    values: Seq<Seq<FieldElement>>,
    out: DebugStackFrame,
)
    requires
        assigned_in_turn(stores, ids, values),
        ids.no_duplicates(),
        forall|k: int| 0 <= k < ids.len() ==> stores[0].names().contains_key(#[trigger] ids[k]),
        stores.last().shows_frame(out, stores.last().frames().len() - 1),
    ensures
        variable_views(out.variables@).to_set() == Set::new(
            |e: (Seq<char>, ValueView, TypeView)|
                exists|k: int|
                    0 <= k < ids.len() && e == (
                        stores[0].names()[#[trigger] ids[k]],
                        spec_decode(values[k], stores[0].type_of(ids[k]).unwrap()).unwrap().0,
                        stores[0].type_of(ids[k]).unwrap(),
                    ),
        ),
{
    let last = stores.last();
    let top = last.frames().len() - 1;
    let frame = last.frames()[top].1;
    lemma_parameters_live(stores, ids, values);
    last.lemma_reported_variables(out, top);
    assert(last.names() == stores[0].names());
    let reported = variable_views(out.variables@).to_set();
    let wanted = Set::new(
        |e: (Seq<char>, ValueView, TypeView)|
            exists|k: int|
                0 <= k < ids.len() && e == (
                    stores[0].names()[#[trigger] ids[k]],
                    spec_decode(values[k], stores[0].type_of(ids[k]).unwrap()).unwrap().0,
                    stores[0].type_of(ids[k]).unwrap(),
                ),
    );
    assert forall|e: (Seq<char>, ValueView, TypeView)| reported.contains(e) <==> wanted.contains(
        e,
    ) by {
        if reported.contains(e) {
            let id = choose|id: u32|
                #[trigger] frame.contains_key(id) && last.names().contains_key(id) && last.type_of(
                    id,
                ).is_some() && e == (last.names()[id], frame[id], last.type_of(id).unwrap());
            assert(ids.to_set().contains(id));
            let k = choose|k: int| 0 <= k < ids.len() && ids[k] == id;
            lemma_parameters_values(stores, ids, values, k);
            assert(last.type_of(id) == stores[0].type_of(id));
        }
        if wanted.contains(e) {
            let k = choose|k: int|
                0 <= k < ids.len() && e == (
                    stores[0].names()[#[trigger] ids[k]],
                    spec_decode(values[k], stores[0].type_of(ids[k]).unwrap()).unwrap().0,
                    stores[0].type_of(ids[k]).unwrap(),
                );
            lemma_parameters_values(stores, ids, values, k);
            assert(last.type_of(ids[k]) == stores[0].type_of(ids[k]));
            assert(frame.contains_key(ids[k]));
        }
    }
    assert(reported =~= wanted);
}

/// Registering the same variables or types a second time changes nothing.
pub proof fn lemma_registration_idempotent<V>(known: Map<u32, V>, added: Map<u32, V>)
    ensures
        known.union_prefer_right(added).union_prefer_right(added) == known.union_prefer_right(
            added,
        ),
{
    assert(known.union_prefer_right(added).union_prefer_right(added) =~= known.union_prefer_right(
        added,
    ));
}

impl DebugVars {
    /// Whether every variable of every frame has a registered type.
    pub open spec fn frames_are_typed(&self, frames: Seq<(u32, Map<u32, ValueView>)>) -> bool {
        forall|i: int, id: u32|
            0 <= i < frames.len() && (#[trigger] frames[i]).1.contains_key(id) ==> (
            #[trigger] self.type_of(id)).is_some()
    }

    /// An assignment binds only a variable with a registered type: where the
    /// variables of all frames have types before, they have types after.
    pub proof fn lemma_assign_keeps_typed(&self, var_id: u32, values: Seq<FieldElement>)
        requires
            self.frames_are_typed(self.frames()),
            self.spec_assign(var_id, values).is_ok(),
        ensures
            self.frames_are_typed(self.spec_assign(var_id, values).unwrap()),
    {
        let after = self.spec_assign(var_id, values).unwrap();
        assert forall|i: int, id: u32|
            0 <= i < after.len() && (#[trigger] after[i]).1.contains_key(id) implies (
        #[trigger] self.type_of(id)).is_some() by {
            if i < after.len() - 1 {
                assert(after[i] == self.frames()[i]);
            } else if id != var_id {
                assert(self.frames()[i].1.contains_key(id));
            }
        }
    }
}

} // verus!
