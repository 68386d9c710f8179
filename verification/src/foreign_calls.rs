//! The foreign calls that the instrumented program makes to tell the
//! debugger of its variables, and their routing to the variable store.

use crate::debug_vars::{DebugVars, StoreError};
use crate::field::FieldElement;
use crate::value::ValueView;
use vstd::prelude::*;
use vstd::slice::slice_to_vec;

verus! {

/// The oracles of the debugger.
#[derive(Clone, Copy, Debug, PartialEq, Eq, Structural)]
pub enum DebugForeignCall {
    /// A variable is assigned: its id, then the value.
    VarAssign,
    /// A variable's life ends: its id.
    VarDrop,
    /// A part of a variable is assigned: the id, the path, then the value.
    MemberAssign,
    /// The same before the compiler has resolved the fields: the id, the
    /// path, the names of the fields, then the value.
    MemberAssignPlaceholder,
    /// A variable is assigned through a reference: its id, then the value.
    DerefAssign,
}

/// The oracle of a name, if the name is one of the debugger's.
pub open spec fn spec_lookup(name: Seq<char>) -> Option<DebugForeignCall> {
    if name == "__debug_var_assign"@ {
        Some(DebugForeignCall::VarAssign)
    } else if name == "__debug_var_drop"@ {
        Some(DebugForeignCall::VarDrop)
    } else if name == "__debug_member_assign"@ {
        Some(DebugForeignCall::MemberAssign)
    } else if name == "__debug_member_assign_placeholder"@ {
        Some(DebugForeignCall::MemberAssignPlaceholder)
    } else if name == "__debug_dereference_assign"@ {
        Some(DebugForeignCall::DerefAssign)
    } else {
        None
    }
}

impl DebugForeignCall {
    /// The oracle of a name, if the name is one of the debugger's.
    pub fn lookup(name: &str) -> (call: Option<DebugForeignCall>)
        ensures
            call == spec_lookup(name@),
    {
        let name = name.to_owned();
        if name == "__debug_var_assign".to_owned() {
            Some(DebugForeignCall::VarAssign)
        } else if name == "__debug_var_drop".to_owned() {
            Some(DebugForeignCall::VarDrop)
        } else if name == "__debug_member_assign".to_owned() {
            Some(DebugForeignCall::MemberAssign)
        } else if name == "__debug_member_assign_placeholder".to_owned() {
            Some(DebugForeignCall::MemberAssignPlaceholder)
        } else if name == "__debug_dereference_assign".to_owned() {
            Some(DebugForeignCall::DerefAssign)
        } else {
            None
        }
    }
}

/// What came of a foreign call.
#[derive(Clone, Copy, Debug, PartialEq, Eq, Structural)]
pub enum ForeignCallOutcome {
    /// The call was one of the debugger's and was carried out; it has no outputs.
    Handled,
    /// The call is not one of the debugger's: the outer resolver is to take it.
    Forward,
    /// The call is one of the debugger's and lacks inputs.
    MissingInputs,
    /// The call is one of the debugger's and the store refused it.
    Refused(StoreError),
}

/// A field element narrowed to 32 bits.
pub open spec fn narrow_u32(f: FieldElement) -> u32 {
    ((f.lo as nat) % 0x1_0000_0000) as u32
}

/// The elements of the inputs from position `from` up to `n`, one input behind the other.
pub open spec fn flatten(inputs: Seq<Seq<FieldElement>>, from: nat, n: nat) -> Seq<FieldElement>
    decreases n,
{
    if n <= from || n > inputs.len() {
        Seq::empty()
    } else {
        flatten(inputs, from, (n - 1) as nat) + inputs[n - 1]
    }
}

/// The path that an input holds: its elements narrowed to 32 bits, in the
/// opposite order. The program names the outermost step first; the store
/// walks from the variable inwards.
pub open spec fn path_of(input: Seq<FieldElement>) -> Seq<u32> {
    Seq::new(input.len(), |i: int| narrow_u32(input[input.len() - 1 - i]))
}

/// The models of the inputs of a call.
pub open spec fn inputs_view(inputs: Seq<Vec<FieldElement>>) -> Seq<Seq<FieldElement>> {
    Seq::new(inputs.len(), |i: int| inputs[i]@)
}

/// What a call does to the store: the outcome, and the frames afterwards.
pub open spec fn spec_execute(store: &DebugVars, name: Seq<char>, inputs: Seq<Seq<FieldElement>>) -> (
    ForeignCallOutcome,
    Seq<(u32, Map<u32, ValueView>)>,
) {
    let frames = store.frames();
    match spec_lookup(name) {
        None => (ForeignCallOutcome::Forward, frames),
        Some(call) => if inputs.len() == 0 || inputs[0].len() == 0 {
            (ForeignCallOutcome::MissingInputs, frames)
        } else {
            let var_id = narrow_u32(inputs[0][0]);
            match call {
                DebugForeignCall::VarAssign => match store.spec_assign(
                    var_id,
                    flatten(inputs, 1, inputs.len()),
                ) {
                    Ok(after) => (ForeignCallOutcome::Handled, after),
                    Err(e) => (ForeignCallOutcome::Refused(e), frames),
                },
                DebugForeignCall::VarDrop => if frames.len() == 0 {
                    (ForeignCallOutcome::Refused(StoreError::NoFrame), frames)
                } else {
                    (
                        ForeignCallOutcome::Handled,
                        frames.update(
                            frames.len() - 1,
                            (frames.last().0, frames.last().1.remove(var_id)),
                        ),
                    )
                },
                DebugForeignCall::MemberAssign => if inputs.len() < 2 {
                    (ForeignCallOutcome::MissingInputs, frames)
                } else {
                    match store.spec_assign_field(
                        var_id,
                        path_of(inputs[1]),
                        flatten(inputs, 2, inputs.len()),
                    ) {
                        Ok(after) => (ForeignCallOutcome::Handled, after),
                        Err(e) => (ForeignCallOutcome::Refused(e), frames),
                    }
                },
                DebugForeignCall::MemberAssignPlaceholder => if inputs.len() < 3 {
                    (ForeignCallOutcome::MissingInputs, frames)
                } else {
                    match store.spec_assign_field(
                        var_id,
                        path_of(inputs[1]),
                        flatten(inputs, 3, inputs.len()),
                    ) {
                        Ok(after) => (ForeignCallOutcome::Handled, after),
                        Err(e) => (ForeignCallOutcome::Refused(e), frames),
                    }
                },
                DebugForeignCall::DerefAssign => (
                    ForeignCallOutcome::Refused(StoreError::Unsupported),
                    frames,
                ),
            }
        },
    }
}

fn narrow(f: &FieldElement) -> (n: u32)
    ensures
        n == narrow_u32(*f),
{
    (f.lo % 0x1_0000_0000u128) as u32
}

/// The elements of the inputs from position `from` up to `to`, one input
/// behind the other.
pub fn flatten_inputs(inputs: &Vec<Vec<FieldElement>>, from: usize, to: usize) -> (values: Vec<
    FieldElement,
>)
    requires
        from <= to <= inputs.len(),
    ensures
        values@ == flatten(inputs_view(inputs@), from as nat, to as nat),
{
    let mut values: Vec<FieldElement> = Vec::new();
    let ghost all = inputs_view(inputs@);
    let mut i: usize = from;
    while i < to
        invariant
            from <= i <= to <= inputs.len(),
            all == inputs_view(inputs@),
            values@ == flatten(all, from as nat, i as nat),
        decreases to - i,
    {
        let mut more = slice_to_vec(inputs[i].as_slice());
        assert(all[i as int] == inputs[i as int]@);
        values.append(&mut more);
        i += 1;
    }
    values
}

fn flatten_from(inputs: &Vec<Vec<FieldElement>>, from: usize) -> (values: Vec<FieldElement>)
    ensures
        values@ == flatten(inputs_view(inputs@), from as nat, inputs.len() as nat),
{
    if from >= inputs.len() {
        Vec::new()
    } else {
        flatten_inputs(inputs, from, inputs.len())
    }
}

fn path_from(input: &Vec<FieldElement>) -> (path: Vec<u32>)
    ensures
        path@ == path_of(input@),
{
    let mut path: Vec<u32> = Vec::new();
    let mut i: usize = input.len();
    while i > 0
        invariant
            0 <= i <= input.len(),
            path.len() == input.len() - i,
            forall|k: int| 0 <= k < path.len() ==> path[k] == narrow_u32(input[input.len() - 1 - k]),
        decreases i,
    {
        i -= 1;
        path.push(narrow(&input[i]));
    }
    assert(path@ =~= path_of(input@));
    path
}

fn outcome_of(result: Result<(), StoreError>) -> (outcome: ForeignCallOutcome)
    ensures
        outcome == match result {
            Ok(()) => ForeignCallOutcome::Handled,
            Err(e) => ForeignCallOutcome::Refused(e),
        },
{
    match result {
        Ok(()) => ForeignCallOutcome::Handled,
        Err(e) => ForeignCallOutcome::Refused(e),
    }
}

/// Carries out a foreign call on the variable store where it is one of the
/// debugger's. Such a call has no outputs; any other call is left to the
/// outer resolver. Where the call is refused the store is unchanged.
pub fn execute_debug_call(store: &mut DebugVars, name: &str, inputs: &Vec<Vec<FieldElement>>) -> (outcome:
    ForeignCallOutcome)
    ensures
        (outcome, final(store).frames()) == spec_execute(old(store), name@, inputs_view(inputs@)),
        final(store).names() == old(store).names(),
        final(store).type_ids() == old(store).type_ids(),
        final(store).types() == old(store).types(),
{
    let call = match DebugForeignCall::lookup(name) {
        None => {
            return ForeignCallOutcome::Forward;
        },
        Some(call) => call,
    };
    if inputs.len() == 0 || inputs[0].len() == 0 {
        return ForeignCallOutcome::MissingInputs;
    }
    assert(inputs_view(inputs@)[0] == inputs[0]@);
    let var_id = narrow(&inputs[0][0]);
    match call {
        DebugForeignCall::VarAssign => {
            let values = flatten_from(inputs, 1);
            outcome_of(store.try_assign(var_id, values.as_slice()))
        },
        DebugForeignCall::VarDrop => {
            if store.frame_count() == 0 {
                ForeignCallOutcome::Refused(StoreError::NoFrame)
            } else {
                store.drop(var_id);
                ForeignCallOutcome::Handled
            }
        },
        DebugForeignCall::MemberAssign => {
            if inputs.len() < 2 {
                return ForeignCallOutcome::MissingInputs;
            }
            assert(inputs_view(inputs@)[1] == inputs[1]@);
            let path = path_from(&inputs[1]);
            let values = flatten_from(inputs, 2);
            outcome_of(store.try_assign_field(var_id, path, values.as_slice()))
        },
        DebugForeignCall::MemberAssignPlaceholder => {
            if inputs.len() < 3 {
                return ForeignCallOutcome::MissingInputs;
            }
            assert(inputs_view(inputs@)[1] == inputs[1]@);
            let path = path_from(&inputs[1]);
            let values = flatten_from(inputs, 3);
            outcome_of(store.try_assign_field(var_id, path, values.as_slice()))
        },
        DebugForeignCall::DerefAssign => {
            let values = flatten_from(inputs, 1);
            outcome_of(store.assign_deref(var_id, values.as_slice()))
        },
    }
}

} // verus!
