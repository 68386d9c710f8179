//! The shapes of the values that a running program can show, and how many
//! field elements each shape takes on the wire.

use vstd::prelude::*;

verus! {

/// The shape of a printable value.
#[derive(Debug, PartialEq, Eq, Hash)]
#[allow(inconsistent_fields)]
pub enum PrintableType {
    Field,
    Array { length: Option<u64>, typ: Box<PrintableType> },
    Tuple { types: Vec<PrintableType> },
    SignedInteger { width: u32 },
    UnsignedInteger { width: u32 },
    Boolean,
    Struct { name: String, fields: Vec<(String, PrintableType)> },
    String { length: u64 },
    FmtString {  },
    Error {  },
    Unit {  },
    Constant {  },
    TraitAsType {  },
    TypeVariable {  },
    NamedGeneric {  },
    Forall {  },
    Function { name: String, arguments: Vec<(String, PrintableType)> },
    MutableReference { typ: Box<PrintableType> },
    NotConstant {  },
}

/// The mathematical model of a [`PrintableType`]: names are sequences of
/// characters, lists are sequences.
#[allow(inconsistent_fields)]
pub enum TypeView {
    Field,
    Array { length: Option<u64>, typ: Box<TypeView> },
    Tuple { types: Seq<TypeView> },
    SignedInteger { width: u32 },
    UnsignedInteger { width: u32 },
    Boolean,
    Struct { name: Seq<char>, fields: Seq<(Seq<char>, TypeView)> },
    String { length: u64 },
    FmtString,
    Error,
    Unit,
    Constant,
    TraitAsType,
    TypeVariable,
    NamedGeneric,
    Forall,
    Function { name: Seq<char>, arguments: Seq<(Seq<char>, TypeView)> },
    MutableReference { typ: Box<TypeView> },
    NotConstant,
}

/// The models of a list of types, in order.
pub open spec fn type_views(types: Seq<PrintableType>) -> Seq<TypeView>
    decreases types,
{
    if types.len() == 0 {
        Seq::empty()
    } else {
        type_views(types.drop_last()).push(type_view(types.last()))
    }
}

/// The models of a list of named types, in order.
pub open spec fn field_views(fields: Seq<(String, PrintableType)>) -> Seq<(Seq<char>, TypeView)>
    decreases fields,
{
    if fields.len() == 0 {
        Seq::empty()
    } else {
        field_views(fields.drop_last()).push((fields.last().0@, type_view(fields.last().1)))
    }
}

/// The model of one type.
pub open spec fn type_view(t: PrintableType) -> TypeView
    decreases t,
{
    match t {
        PrintableType::Field => TypeView::Field,
        PrintableType::Array { length, typ } => TypeView::Array {
            length,
            typ: Box::new(type_view(*typ)),
        },
        PrintableType::Tuple { types } => TypeView::Tuple { types: type_views(types@) },
        PrintableType::SignedInteger { width } => TypeView::SignedInteger { width },
        PrintableType::UnsignedInteger { width } => TypeView::UnsignedInteger { width },
        PrintableType::Boolean => TypeView::Boolean,
        PrintableType::Struct { name, fields } => TypeView::Struct {
            name: name@,
            fields: field_views(fields@),
        },
        PrintableType::String { length } => TypeView::String { length },
        PrintableType::FmtString {  } => TypeView::FmtString,
        PrintableType::Error {  } => TypeView::Error,
        PrintableType::Unit {  } => TypeView::Unit,
        PrintableType::Constant {  } => TypeView::Constant,
        PrintableType::TraitAsType {  } => TypeView::TraitAsType,
        PrintableType::TypeVariable {  } => TypeView::TypeVariable,
        PrintableType::NamedGeneric {  } => TypeView::NamedGeneric,
        PrintableType::Forall {  } => TypeView::Forall,
        PrintableType::Function { name, arguments } => TypeView::Function {
            name: name@,
            arguments: field_views(arguments@),
        },
        PrintableType::MutableReference { typ } => TypeView::MutableReference {
            typ: Box::new(type_view(*typ)),
        },
        PrintableType::NotConstant {  } => TypeView::NotConstant,
    }
}

impl View for PrintableType {
    type V = TypeView;

    open spec fn view(&self) -> TypeView {
        type_view(*self)
    }
}

/// `type_views` keeps the length and maps each position.
pub proof fn lemma_type_views(types: Seq<PrintableType>)
    ensures
        type_views(types).len() == types.len(),
        forall|i: int| 0 <= i < types.len() ==> #[trigger] type_views(types)[i] == types[i]@,
    decreases types.len(),
{
    if types.len() > 0 {
        lemma_type_views(types.drop_last());
    }
}

/// `field_views` keeps the length and maps each position.
pub proof fn lemma_field_views(fields: Seq<(String, PrintableType)>)
    ensures
        field_views(fields).len() == fields.len(),
        forall|i: int|
            0 <= i < fields.len() ==> #[trigger] field_views(fields)[i] == (
                fields[i].0@,
                fields[i].1@,
            ),
    decreases fields.len(),
{
    if fields.len() > 0 {
        lemma_field_views(fields.drop_last());
    }
}

/// The number of field elements that encode a value of type `t`, or `None`
/// where the type has no fixed size: a slice, or anything that holds one.
pub open spec fn spec_field_count(t: TypeView) -> Option<nat>
    decreases t,
{
    match t {
        TypeView::Field
        | TypeView::SignedInteger { .. }
        | TypeView::UnsignedInteger { .. }
        | TypeView::Boolean => Some(1),
        TypeView::Array { length, typ } => match (length, spec_field_count(*typ)) {
            (Some(len), Some(c)) => Some(c * (len as nat)),
            _ => None,
        },
        TypeView::Tuple { types } => spec_tuple_count(types),
        TypeView::Struct { fields, .. } => spec_fields_count(fields),
        TypeView::String { length } => Some(length as nat),
        _ => Some(0),
    }
}

/// The sum of the counts of `types`, `None` as soon as one of them is unsized.
pub open spec fn spec_tuple_count(types: Seq<TypeView>) -> Option<nat>
    decreases types,
{
    if types.len() == 0 {
        Some(0)
    } else {
        match (spec_tuple_count(types.drop_last()), spec_field_count(types.last())) {
            (Some(a), Some(b)) => Some(a + b),
            _ => None,
        }
    }
}

/// The sum of the counts of the types of `fields`.
pub open spec fn spec_fields_count(fields: Seq<(Seq<char>, TypeView)>) -> Option<nat>
    decreases fields,
{
    if fields.len() == 0 {
        Some(0)
    } else {
        match (spec_fields_count(fields.drop_last()), spec_field_count(fields.last().1)) {
            (Some(a), Some(b)) => Some(a + b),
            _ => None,
        }
    }
}

/// How a count relates to what 32 bits can hold.
pub enum CountClass {
    /// The type has no fixed size.
    Unsized,
    /// The count, which fits.
    Exact(u32),
    /// The count is defined and larger than `u32::MAX`.
    Large,
}

/// The class of a count.
pub open spec fn classify(count: Option<nat>) -> CountClass {
    match count {
        None => CountClass::Unsized,
        Some(n) => if n <= u32::MAX {
            CountClass::Exact(n as u32)
        } else {
            CountClass::Large
        },
    }
}

/// The count of a sequence extended by one type is the sum of the two counts.
pub proof fn lemma_tuple_count_step(types: Seq<TypeView>, i: int)
    requires
        0 <= i < types.len(),
    ensures
        spec_tuple_count(types.take(i + 1)) == match (
            spec_tuple_count(types.take(i)),
            spec_field_count(types[i]),
        ) {
            (Some(a), Some(b)) => Some(a + b),
            _ => None,
        },
{
    assert(types.take(i + 1).drop_last() =~= types.take(i));
    assert(types.take(i + 1).last() == types[i]);
}

/// The same for named types.
pub proof fn lemma_fields_count_step(fields: Seq<(Seq<char>, TypeView)>, i: int)
    requires
        0 <= i < fields.len(),
    ensures
        spec_fields_count(fields.take(i + 1)) == match (
            spec_fields_count(fields.take(i)),
            spec_field_count(fields[i].1),
        ) {
            (Some(a), Some(b)) => Some(a + b),
            _ => None,
        },
{
    assert(fields.take(i + 1).drop_last() =~= fields.take(i));
    assert(fields.take(i + 1).last() == fields[i]);
}

/// The class of the sum of two counts, from their classes.
pub open spec fn class_sum_spec(a: CountClass, b: CountClass) -> CountClass {
    match (a, b) {
        (CountClass::Unsized, _) => CountClass::Unsized,
        (_, CountClass::Unsized) => CountClass::Unsized,
        (CountClass::Exact(m), CountClass::Exact(n)) => if m + n <= u32::MAX {
            CountClass::Exact((m + n) as u32)
        } else {
            CountClass::Large
        },
        _ => CountClass::Large,
    }
}

/// The class of a count taken `len` times, from its class.
pub open spec fn class_times_spec(a: CountClass, len: u64) -> CountClass {
    match a {
        CountClass::Unsized => CountClass::Unsized,
        CountClass::Exact(m) => if m * len <= u32::MAX {
            CountClass::Exact((m * len) as u32)
        } else {
            CountClass::Large
        },
        CountClass::Large => if len == 0 {
            CountClass::Exact(0)
        } else {
            CountClass::Large
        },
    }
}

/// Classes add as counts do.
pub proof fn lemma_class_sum(x: Option<nat>, y: Option<nat>)
    ensures
        class_sum_spec(classify(x), classify(y)) == classify(
            match (x, y) {
                (Some(m), Some(n)) => Some(m + n),
                _ => None,
            },
        ),
{
}

/// Classes multiply as counts do.
pub proof fn lemma_class_times(x: Option<nat>, len: u64)
    ensures
        class_times_spec(classify(x), len) == classify(
            match x {
                Some(m) => Some(m * (len as nat)),
                None => None,
            },
        ),
{
    if let Some(m) = x {
        if m > u32::MAX {
            if len == 0 {
                assert(m * (len as nat) == 0) by (nonlinear_arith)
                    requires
                        len == 0,
                ;
            } else {
                assert(m * (len as nat) > u32::MAX) by (nonlinear_arith)
                    requires
                        m > u32::MAX,
                        len > 0,
                ;
            }
        }
    }
}

fn class_sum(a: CountClass, b: CountClass) -> (c: CountClass)
    ensures
        c == class_sum_spec(a, b),
{
    match (a, b) {
        (CountClass::Unsized, _) => CountClass::Unsized,
        (_, CountClass::Unsized) => CountClass::Unsized,
        (CountClass::Exact(m), CountClass::Exact(n)) => {
            if m <= u32::MAX - n {
                CountClass::Exact(m + n)
            } else {
                CountClass::Large
            }
        },
        _ => CountClass::Large,
    }
}

fn class_times(a: CountClass, len: u64) -> (c: CountClass)
    ensures
        c == class_times_spec(a, len),
{
    match a {
        CountClass::Unsized => CountClass::Unsized,
        CountClass::Exact(m) => {
            if m == 0 || len == 0 {
                assert(m * len == 0) by (nonlinear_arith)
                    requires
                        m == 0 || len == 0,
                ;
                CountClass::Exact(0)
            } else if len <= (u32::MAX / m) as u64 {
                assert(m * len <= u32::MAX) by (nonlinear_arith)
                    requires
                        m > 0,
                        len <= (u32::MAX as nat) / (m as nat),
                ;
                CountClass::Exact(m * (len as u32))
            } else {
                assert(m * len > u32::MAX) by (nonlinear_arith)
                    requires
                        m > 0,
                        len > (u32::MAX as nat) / (m as nat),
                ;
                CountClass::Large
            }
        },
        CountClass::Large => {
            if len == 0 {
                CountClass::Exact(0)
            } else {
                CountClass::Large
            }
        },
    }
}

impl PrintableType {
    /// The class of the number of field elements that a value of this type takes.
    pub fn count_class(&self) -> (c: CountClass)
        ensures
            c == classify(spec_field_count(self@)),
        decreases self,
    {
        match self {
            PrintableType::Field
            | PrintableType::SignedInteger { .. }
            | PrintableType::UnsignedInteger { .. }
            | PrintableType::Boolean => CountClass::Exact(1),
            PrintableType::Array { length, typ } => {
                let inner = (**typ).count_class();
                match length {
                    None => CountClass::Unsized,
                    Some(len) => {
                        proof {
                            lemma_class_times(spec_field_count(typ@), *len);
                        }
                        class_times(inner, *len)
                    },
                }
            },
            PrintableType::Tuple { types } => {
                let mut acc = CountClass::Exact(0);
                let mut i: usize = 0;
                proof {
                    lemma_type_views(types@);
                }
                while i < types.len()
                    invariant
                        0 <= i <= types.len(),
                        type_views(types@).len() == types.len(),
                        forall|k: int|
                            0 <= k < types.len() ==> #[trigger] type_views(types@)[k]
                                == types[k]@,
                        acc == classify(spec_tuple_count(type_views(types@).take(i as int))),
                        forall|k: int| 0 <= k < types.len() ==> decreases_to!(self => types[k]),
                    decreases types.len() - i,
                {
                    let one = types[i].count_class();
                    proof {
                        lemma_tuple_count_step(type_views(types@), i as int);
                        lemma_class_sum(
                            spec_tuple_count(type_views(types@).take(i as int)),
                            spec_field_count(types[i as int]@),
                        );
                    }
                    acc = class_sum(acc, one);
                    i += 1;
                }
                assert(type_views(types@).take(i as int) =~= type_views(types@));
                acc
            },
            PrintableType::Struct { fields, .. } => {
                let mut acc = CountClass::Exact(0);
                let mut i: usize = 0;
                proof {
                    lemma_field_views(fields@);
                }
                while i < fields.len()
                    invariant
                        0 <= i <= fields.len(),
                        field_views(fields@).len() == fields.len(),
                        forall|k: int|
                            0 <= k < fields.len() ==> #[trigger] field_views(fields@)[k] == (
                                fields[k].0@,
                                fields[k].1@,
                            ),
                        acc == classify(spec_fields_count(field_views(fields@).take(i as int))),
                        forall|k: int| 0 <= k < fields.len() ==> decreases_to!(self => fields[k]),
                    decreases fields.len() - i,
                {
                    let one = fields[i].1.count_class();
                    proof {
                        lemma_fields_count_step(field_views(fields@), i as int);
                        lemma_class_sum(
                            spec_fields_count(field_views(fields@).take(i as int)),
                            spec_field_count(fields[i as int].1@),
                        );
                    }
                    acc = class_sum(acc, one);
                    i += 1;
                }
                assert(field_views(fields@).take(i as int) =~= field_views(fields@));
                acc
            },
            PrintableType::String { length } => {
                if *length <= u32::MAX as u64 {
                    CountClass::Exact(*length as u32)
                } else {
                    CountClass::Large
                }
            },
            _ => CountClass::Exact(0),
        }
    }

    /// The number of field elements that encode a value of this type: `None`
    /// where the type has no fixed size, or where the number is beyond 32 bits.
    pub fn field_count(&self) -> (count: Option<u32>)
        ensures
            count == match spec_field_count(self@) {
                Some(n) => if n <= u32::MAX {
                    Some(n as u32)
                } else {
                    None
                },
                None => None,
            },
    {
        match self.count_class() {
            CountClass::Exact(n) => Some(n),
            _ => None,
        }
    }
}

fn clone_types(types: &Vec<PrintableType>) -> (res: Vec<PrintableType>)
    ensures
        type_views(res@) == type_views(types@),
        res.len() == types.len(),
    decreases types,
{
    let mut res: Vec<PrintableType> = Vec::new();
    let mut i: usize = 0;
    while i < types.len()
        invariant
            0 <= i <= types.len(),
            res.len() == i,
            forall|k: int| 0 <= k < i ==> #[trigger] res[k]@ == types[k]@,
            forall|k: int| 0 <= k < types.len() ==> decreases_to!(types => types[k]),
        decreases types.len() - i,
    {
        let t = types[i].clone();
        res.push(t);
        i += 1;
    }
    proof {
        lemma_type_views(res@);
        lemma_type_views(types@);
        assert(type_views(res@) =~= type_views(types@));
    }
    res
}

fn clone_fields(fields: &Vec<(String, PrintableType)>) -> (res: Vec<(String, PrintableType)>)
    ensures
        field_views(res@) == field_views(fields@),
        res.len() == fields.len(),
    decreases fields,
{
    let mut res: Vec<(String, PrintableType)> = Vec::new();
    let mut i: usize = 0;
    while i < fields.len()
        invariant
            0 <= i <= fields.len(),
            res.len() == i,
            forall|k: int|
                0 <= k < i ==> (#[trigger] res[k]).0@ == fields[k].0@ && res[k].1@ == fields[k].1@,
            forall|k: int| 0 <= k < fields.len() ==> decreases_to!(fields => fields[k]),
        decreases fields.len() - i,
    {
        let name = fields[i].0.clone();
        let t = fields[i].1.clone();
        res.push((name, t));
        i += 1;
    }
    proof {
        lemma_field_views(res@);
        lemma_field_views(fields@);
        assert(field_views(res@) =~= field_views(fields@));
    }
    res
}

impl Clone for PrintableType {
    fn clone(&self) -> (res: Self)
        ensures
            res@ == self@,
        decreases self,
    {
        match self {
            PrintableType::Field => PrintableType::Field,
            PrintableType::Array { length, typ } => PrintableType::Array {
                length: *length,
                typ: Box::new((**typ).clone()),
            },
            PrintableType::Tuple { types } => PrintableType::Tuple { types: clone_types(types) },
            PrintableType::SignedInteger { width } => PrintableType::SignedInteger {
                width: *width,
            },
            PrintableType::UnsignedInteger { width } => PrintableType::UnsignedInteger {
                width: *width,
            },
            PrintableType::Boolean => PrintableType::Boolean,
            PrintableType::Struct { name, fields } => PrintableType::Struct {
                name: name.clone(),
                fields: clone_fields(fields),
            },
            PrintableType::String { length } => PrintableType::String { length: *length },
            PrintableType::FmtString {  } => PrintableType::FmtString {  },
            PrintableType::Error {  } => PrintableType::Error {  },
            PrintableType::Unit {  } => PrintableType::Unit {  },
            PrintableType::Constant {  } => PrintableType::Constant {  },
            PrintableType::TraitAsType {  } => PrintableType::TraitAsType {  },
            PrintableType::TypeVariable {  } => PrintableType::TypeVariable {  },
            PrintableType::NamedGeneric {  } => PrintableType::NamedGeneric {  },
            PrintableType::Forall {  } => PrintableType::Forall {  },
            PrintableType::Function { name, arguments } => PrintableType::Function {
                name: name.clone(),
                arguments: clone_fields(arguments),
            },
            PrintableType::MutableReference { typ } => PrintableType::MutableReference {
                typ: Box::new((**typ).clone()),
            },
            PrintableType::NotConstant {  } => PrintableType::NotConstant {  },
        }
    }
}

fn type_lists_equal(a: &Vec<PrintableType>, b: &Vec<PrintableType>) -> (eq: bool)
    ensures
        eq == (type_views(a@) == type_views(b@)),
    decreases a,
{
    proof {
        lemma_type_views(a@);
        lemma_type_views(b@);
    }
    if a.len() != b.len() {
        return false;
    }
    let mut i: usize = 0;
    while i < a.len()
        invariant
            0 <= i <= a.len(),
            a.len() == b.len(),
            type_views(a@).len() == a.len(),
            type_views(b@).len() == b.len(),
            forall|k: int| 0 <= k < a.len() ==> #[trigger] type_views(a@)[k] == a[k]@,
            forall|k: int| 0 <= k < b.len() ==> #[trigger] type_views(b@)[k] == b[k]@,
            forall|k: int| 0 <= k < i ==> #[trigger] a[k]@ == b[k]@,
            forall|k: int| 0 <= k < a.len() ==> decreases_to!(a => a[k]),
        decreases a.len() - i,
    {
        if !types_equal(&a[i], &b[i]) {
            assert(type_views(a@)[i as int] != type_views(b@)[i as int]);
            return false;
        }
        i += 1;
    }
    assert(type_views(a@) =~= type_views(b@));
    true
}

fn field_lists_equal(a: &Vec<(String, PrintableType)>, b: &Vec<(String, PrintableType)>) -> (eq:
    bool)
    ensures
        eq == (field_views(a@) == field_views(b@)),
    decreases a,
{
    proof {
        lemma_field_views(a@);
        lemma_field_views(b@);
    }
    if a.len() != b.len() {
        return false;
    }
    let mut i: usize = 0;
    while i < a.len()
        invariant
            0 <= i <= a.len(),
            a.len() == b.len(),
            field_views(a@).len() == a.len(),
            field_views(b@).len() == b.len(),
            forall|k: int|
                0 <= k < a.len() ==> #[trigger] field_views(a@)[k] == (a[k].0@, a[k].1@),
            forall|k: int|
                0 <= k < b.len() ==> #[trigger] field_views(b@)[k] == (b[k].0@, b[k].1@),
            forall|k: int| 0 <= k < i ==> (#[trigger] a[k]).0@ == b[k].0@ && a[k].1@ == b[k].1@,
            forall|k: int| 0 <= k < a.len() ==> decreases_to!(a => a[k]),
        decreases a.len() - i,
    {
        if a[i].0 != b[i].0 || !types_equal(&a[i].1, &b[i].1) {
            assert(field_views(a@)[i as int] != field_views(b@)[i as int]);
            return false;
        }
        i += 1;
    }
    assert(field_views(a@) =~= field_views(b@));
    true
}

/// Whether two types are the same type.
pub fn types_equal(a: &PrintableType, b: &PrintableType) -> (eq: bool)
    ensures
        eq == (a@ == b@),
    decreases a,
{
    match (a, b) {
        (PrintableType::Field, PrintableType::Field) => true,
        (
            PrintableType::Array { length: la, typ: ta },
            PrintableType::Array { length: lb, typ: tb },
        ) => {
            let same_length = match (la, lb) {
                (None, None) => true,
                (Some(x), Some(y)) => *x == *y,
                _ => false,
            };
            let same_element = types_equal(&**ta, &**tb);
            same_length && same_element
        },
        (PrintableType::Tuple { types: ta }, PrintableType::Tuple { types: tb }) => {
            type_lists_equal(ta, tb)
        },
        (PrintableType::SignedInteger { width: wa }, PrintableType::SignedInteger { width: wb }) => {
            *wa == *wb
        },
        (
            PrintableType::UnsignedInteger { width: wa },
            PrintableType::UnsignedInteger { width: wb },
        ) => *wa == *wb,
        (PrintableType::Boolean, PrintableType::Boolean) => true,
        (
            PrintableType::Struct { name: na, fields: fa },
            PrintableType::Struct { name: nb, fields: fb },
        ) => {
            let same_name = *na == *nb;
            let same_fields = field_lists_equal(fa, fb);
            same_name && same_fields
        },
        (PrintableType::String { length: la }, PrintableType::String { length: lb }) => *la == *lb,
        (PrintableType::FmtString {  }, PrintableType::FmtString {  }) => true,
        (PrintableType::Error {  }, PrintableType::Error {  }) => true,
        (PrintableType::Unit {  }, PrintableType::Unit {  }) => true,
        (PrintableType::Constant {  }, PrintableType::Constant {  }) => true,
        (PrintableType::TraitAsType {  }, PrintableType::TraitAsType {  }) => true,
        (PrintableType::TypeVariable {  }, PrintableType::TypeVariable {  }) => true,
        (PrintableType::NamedGeneric {  }, PrintableType::NamedGeneric {  }) => true,
        (PrintableType::Forall {  }, PrintableType::Forall {  }) => true,
        (
            PrintableType::Function { name: na, arguments: fa },
            PrintableType::Function { name: nb, arguments: fb },
        ) => {
            let same_name = *na == *nb;
            let same_arguments = field_lists_equal(fa, fb);
            same_name && same_arguments
        },
        (
            PrintableType::MutableReference { typ: ta },
            PrintableType::MutableReference { typ: tb },
        ) => types_equal(&**ta, &**tb),
        (PrintableType::NotConstant {  }, PrintableType::NotConstant {  }) => true,
        _ => false,
    }
}

} // verus!
