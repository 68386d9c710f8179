//! The registry that the compiler fills while it lowers an instrumented
//! program: for each variable its name and the id of its printable type, with
//! equal types sharing one id.

use crate::printable::{PrintableType, types_equal, TypeView};
use std::collections::HashMap;
use vstd::prelude::*;

verus! {

broadcast use vstd::std_specs::hash::group_hash_axioms;

/// How a type variable is bound.
#[derive(Debug)]
pub enum TypeBinding {
    /// Bound to a type.
    Bound(Box<Type>),
    /// Not bound to anything.
    Unbound,
}

/// The type of a variable as the compiler holds it.
#[derive(Debug)]
pub enum Type {
    /// A type with a printable form.
    Printable(PrintableType),
    /// A generic parameter that was given a name.
    NamedGeneric(TypeBinding),
    /// A type variable.
    TypeVariable(TypeBinding),
}

/// Whether the outermost binding of `t`, if it has one, is bound.
pub open spec fn is_resolvable(t: Type) -> bool {
    match t {
        Type::NamedGeneric(TypeBinding::Unbound) | Type::TypeVariable(TypeBinding::Unbound) => false,
        _ => true,
    }
}

/// The type that `t` stands for: what its outermost binding is bound to, or `t` itself.
pub open spec fn spec_resolve_type(t: Type) -> Type {
    match t {
        Type::NamedGeneric(TypeBinding::Bound(bound)) | Type::TypeVariable(
            TypeBinding::Bound(bound),
        ) => *bound,
        _ => t,
    }
}

/// The printable form of a type: unbound variables have the opaque form of their kind.
pub open spec fn spec_printable(t: Type) -> TypeView
    decreases t,
{
    match t {
        Type::Printable(p) => p@,
        Type::NamedGeneric(TypeBinding::Bound(bound)) => spec_printable(*bound),
        Type::NamedGeneric(TypeBinding::Unbound) => TypeView::NamedGeneric,
        Type::TypeVariable(TypeBinding::Bound(bound)) => spec_printable(*bound),
        Type::TypeVariable(TypeBinding::Unbound) => TypeView::TypeVariable,
    }
}

/// Follows the outermost binding of a type variable or named generic.
pub fn resolve_type(var_type: Type) -> (resolved: Type)
    requires
        is_resolvable(var_type),
    ensures
        resolved == spec_resolve_type(var_type),
{
    match var_type {
        Type::NamedGeneric(TypeBinding::Bound(bound)) => *bound,
        Type::TypeVariable(TypeBinding::Bound(bound)) => *bound,
        other => other,
    }
}

/// The printable form of a type.
pub fn printable_type(t: Type) -> (p: PrintableType)
    ensures
        p@ == spec_printable(t),
    decreases t,
{
    match t {
        Type::Printable(p) => p,
        Type::NamedGeneric(TypeBinding::Bound(bound)) => printable_type(*bound),
        Type::NamedGeneric(TypeBinding::Unbound) => PrintableType::NamedGeneric {  },
        Type::TypeVariable(TypeBinding::Bound(bound)) => printable_type(*bound),
        Type::TypeVariable(TypeBinding::Unbound) => PrintableType::TypeVariable {  },
    }
}

/// Variables with their names and type ids, and the table of types by id.
#[derive(Debug)]
pub struct DebugTypes {
    variables: HashMap<u32, (String, u32)>,
    types: Vec<PrintableType>,
}

impl DebugTypes {
    #[verifier::type_invariant]
    spec fn well_formed(self) -> bool {
        &&& self.types.len() <= u32::MAX
        &&& forall|i: int, j: int|
            0 <= i < j < self.types.len() ==> (#[trigger] self.types[i])@ != (
            #[trigger] self.types[j])@
        &&& forall|id: u32| #[trigger]
            self.variables@.contains_key(id) ==> self.variables@[id].1 < self.types.len()
    }

    /// The registered variables: name and type id by variable id.
    pub closed spec fn variables(&self) -> Map<u32, (Seq<char>, u32)> {
        Map::new(
            |id: u32| self.variables@.contains_key(id),
            |id: u32| (self.variables@[id].0@, self.variables@[id].1),
        )
    }

    /// The registered types; a type's id is its position.
    pub closed spec fn types(&self) -> Seq<TypeView> {
        Seq::new(self.types.len() as nat, |i: int| self.types[i]@)
    }

    /// An empty registry.
    pub fn new() -> (registry: DebugTypes)
        ensures
            registry.variables() == Map::<u32, (Seq<char>, u32)>::empty(),
            registry.types() == Seq::<TypeView>::empty(),
    {
        let registry = DebugTypes { variables: HashMap::new(), types: Vec::new() };
        assert(registry.variables() =~= Map::<u32, (Seq<char>, u32)>::empty());
        assert(registry.types() =~= Seq::<TypeView>::empty());
        registry
    }

    /// Registers variable `var_id` with its name and type. The type gets the id
    /// that it already has in the registry, or the next free one.
    pub fn insert_var(&mut self, var_id: u32, var_name: &str, var_type: Type)
        requires
            is_resolvable(var_type),
            old(self).types().len() < u32::MAX,
        ensures
            ({
                let t = spec_printable(spec_resolve_type(var_type));
                let known = old(self).types().contains(t);
                let type_id = if known {
                    old(self).types().index_of(t)
                } else {
                    old(self).types().len() as int
                };
                &&& final(self).types() == if known {
                    old(self).types()
                } else {
                    old(self).types().push(t)
                }
                &&& final(self).variables() == old(self).variables().insert(
                    var_id,
                    (var_name@, type_id as u32),
                )
                &&& final(self).types().no_duplicates()
                &&& 0 <= type_id < final(self).types().len()
                &&& final(self).types()[type_id] == t
            }),
    {
        proof {
            use_type_invariant(&*self);
        }
        let ptype = printable_type(resolve_type(var_type));
        let ghost t = ptype@;
        let ghost before = *self;
        let mut taken = DebugTypes::new();
        core::mem::swap(self, &mut taken);
        let DebugTypes { mut variables, mut types } = taken;
        let mut found: Option<u32> = None;
        let mut i: usize = 0;
        while i < types.len()
            invariant_except_break
                found.is_none(),
                forall|k: int| 0 <= k < i ==> (#[trigger] types[k])@ != t,
            invariant
                0 <= i <= types.len(),
                types.len() <= u32::MAX,
                t == ptype@,
            ensures
                match found {
                    Some(at) => at < types.len() && types[at as int]@ == t,
                    None => forall|k: int| 0 <= k < types.len() ==> (#[trigger] types[k])@ != t,
                },
            decreases types.len() - i,
        {
            if types_equal(&types[i], &ptype) {
                found = Some(i as u32);
                break ;
            }
            i += 1;
        }
        let type_id = match found {
            Some(at) => {
                proof {
                    assert(before.types()[at as int] == t);
                    assert(before.types().contains(t));
                    let other = before.types().index_of(t);
                    assert(before.types()[other] == t);
                    assert(other == at);
                }
                at
            },
            None => {
                proof {
                    assert(!before.types().contains(t)) by {
                        if before.types().contains(t) {
                            let k = choose|k: int|
                                0 <= k < before.types().len() && before.types()[k] == t;
                            assert(types[k]@ == t);
                        }
                    }
                }
                let at = types.len() as u32;
                types.push(ptype);
                at
            },
        };
        variables.insert(var_id, (var_name.to_owned(), type_id));
        *self = DebugTypes { variables, types };
        proof {
            assert(self.types() =~= if before.types().contains(t) {
                before.types()
            } else {
                before.types().push(t)
            });
            assert(self.variables() =~= before.variables().insert(
                var_id,
                (var_name@, type_id as u32),
            ));
        }
    }

    /// The printable type of variable `var_id`, if the variable is registered.
    pub fn get_type(&self, var_id: u32) -> (typ: Option<&PrintableType>)
        ensures
            match typ {
                Some(t) => self.variables().contains_key(var_id) && self.variables()[var_id].1
                    < self.types().len() && t@ == self.types()[self.variables()[var_id].1 as int],
                None => !self.variables().contains_key(var_id),
            },
    {
        proof {
            use_type_invariant(self);
        }
        match self.variables.get(&var_id) {
            Some(entry) => {
                let at = entry.1 as usize;
                assert(self.variables@.contains_key(var_id));
                Some(&self.types[at])
            },
            None => None,
        }
    }
}

impl Default for DebugTypes {
    fn default() -> (registry: DebugTypes)
        ensures
            registry.variables() == Map::<u32, (Seq<char>, u32)>::empty(),
            registry.types() == Seq::<TypeView>::empty(),
    {
        DebugTypes::new()
    }
}

impl DebugTypes {
    /// The tables of the registry as the variable store takes them: for each
    /// variable its name and type id, and every type under its id.
    pub fn into_variable_types(self) -> (tables: (
        HashMap<u32, (String, u32)>,
        HashMap<u32, PrintableType>,
    ))
        ensures
            tables.0@.dom() == self.variables().dom(),
            forall|id: u32| #[trigger]
                tables.0@.contains_key(id) ==> (tables.0@[id].0@, tables.0@[id].1)
                    == self.variables()[id],
            forall|id: u32| #[trigger] tables.1@.contains_key(id) <==> id < self.types().len(),
            forall|id: u32| #[trigger]
                tables.1@.contains_key(id) ==> tables.1@[id]@ == self.types()[id as int],
    {
        proof {
            use_type_invariant(&self);
        }
        let ghost before = self;
        let DebugTypes { variables, types } = self;
        let mut by_id: HashMap<u32, PrintableType> = HashMap::new();
        let mut i: usize = 0;
        while i < types.len()
            invariant
                0 <= i <= types.len(),
                types.len() <= u32::MAX,
                forall|id: u32| #[trigger] by_id@.contains_key(id) <==> id < i,
                forall|id: u32| #[trigger] by_id@.contains_key(id) ==> by_id@[id]@ == types[id as int]@,
            decreases types.len() - i,
        {
            let _ = by_id.insert(i as u32, types[i].clone());
            i += 1;
        }
        proof {
            assert(variables@.dom() =~= before.variables().dom());
        }
        (variables, by_id)
    }
}

} // verus!
