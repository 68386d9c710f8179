//! Where execution stands: a position in a circuit's opcode list or inside
//! the bytecode that one of its opcodes calls, with its textual form.

use crate::text::{
    chars_of, decimal, decimal_value, digit_value, lemma_decimal_value, parse_decimal,
    push_char, push_decimal,
};
use vstd::prelude::*;

verus! {

/// A position in the opcodes of one circuit.
#[derive(Clone, Copy, Debug, PartialEq, Eq, Hash, Structural)]
pub enum OpcodeLocation {
    /// The circuit opcode at this index.
    Acir(usize),
    /// The bytecode opcode at `brillig_index` of the call opened at `acir_index`.
    Brillig { acir_index: usize, brillig_index: usize },
}

/// A position in a program: the circuit, the opcode, and for a bytecode
/// position the function whose bytecode it is.
#[derive(Clone, Copy, Debug, PartialEq, Eq, Hash, Structural)]
pub struct DebugLocation {
    pub circuit_id: u32,
    pub opcode_location: OpcodeLocation,
    pub brillig_function_id: Option<u32>,
}

impl OpcodeLocation {
    /// The index of the circuit opcode that this location is at or inside.
    pub open spec fn spec_acir_index(self) -> nat {
        match self {
            OpcodeLocation::Acir(i) => i as nat,
            OpcodeLocation::Brillig { acir_index, .. } => acir_index as nat,
        }
    }

    /// The place of a location in the order of its circuit: the circuit
    /// opcode's index, then zero for the opcode itself and one more than the
    /// bytecode index for a position inside it.
    pub open spec fn order_key(self) -> (nat, nat) {
        match self {
            OpcodeLocation::Acir(i) => (i as nat, 0),
            OpcodeLocation::Brillig { acir_index, brillig_index } => (
                acir_index as nat,
                brillig_index as nat + 1,
            ),
        }
    }

    /// Whether `self` comes before `other` in the order of the circuit.
    pub open spec fn spec_precedes(self, other: OpcodeLocation) -> bool {
        let a = self.order_key();
        let b = other.order_key();
        a.0 < b.0 || (a.0 == b.0 && a.1 < b.1)
    }

    /// The index of the circuit opcode that this location is at or inside.
    pub fn acir_index(&self) -> (i: usize)
        ensures
            i == self.spec_acir_index(),
    {
        match self {
            OpcodeLocation::Acir(i) => *i,
            OpcodeLocation::Brillig { acir_index, .. } => *acir_index,
        }
    }

    /// Whether `self` comes before `other`: by circuit opcode, an opcode
    /// before the bytecode it calls, bytecode by its index.
    pub fn precedes(&self, other: &OpcodeLocation) -> (before: bool)
        ensures
            before == self.spec_precedes(*other),
    {
        match (self, other) {
            (OpcodeLocation::Acir(a), OpcodeLocation::Acir(b)) => *a < *b,
            (OpcodeLocation::Acir(a), OpcodeLocation::Brillig { acir_index, .. }) => *a
                <= *acir_index,
            (OpcodeLocation::Brillig { acir_index, .. }, OpcodeLocation::Acir(b)) => *acir_index
                < *b,
            (
                OpcodeLocation::Brillig { acir_index: a, brillig_index: i },
                OpcodeLocation::Brillig { acir_index: b, brillig_index: j },
            ) => *a < *b || (*a == *b && *i < *j),
        }
    }
}

/// The order of locations is a strict total order.
pub proof fn lemma_location_order(a: OpcodeLocation, b: OpcodeLocation, c: OpcodeLocation)
    ensures
        !a.spec_precedes(a),
        a.spec_precedes(b) && b.spec_precedes(c) ==> a.spec_precedes(c),
        a == b || a.spec_precedes(b) || b.spec_precedes(a),
        !(a.spec_precedes(b) && b.spec_precedes(a)),
{
}

/// The text of an opcode location: the index, and for bytecode a dot and the
/// bytecode index.
pub open spec fn opcode_location_text(l: OpcodeLocation) -> Seq<char> {
    match l {
        OpcodeLocation::Acir(i) => decimal(i as nat),
        OpcodeLocation::Brillig { acir_index, brillig_index } => decimal(acir_index as nat)
            + seq!['.'] + decimal(brillig_index as nat),
    }
}

/// The text of a location: circuit, colon, opcode location, and where the
/// function is given a colon and its id.
pub open spec fn debug_location_text(l: DebugLocation) -> Seq<char> {
    let head = decimal(l.circuit_id as nat) + seq![':'] + opcode_location_text(l.opcode_location);
    match l.brillig_function_id {
        Some(f) => head + seq![':'] + decimal(f as nat),
        None => head,
    }
}

/// The position of the first `c` in `s`, or the length of `s` where there is none.
pub open spec fn first_index(s: Seq<char>, c: char) -> int
    decreases s.len(),
{
    if s.len() == 0 {
        0
    } else if s[0] == c {
        0
    } else {
        1 + first_index(s.drop_first(), c)
    }
}

/// `first_index` is in range, points at `c` if at anything, and no `c` stands before it.
pub proof fn lemma_first_index(s: Seq<char>, c: char)
    ensures
        0 <= first_index(s, c) <= s.len(),
        first_index(s, c) < s.len() ==> s[first_index(s, c)] == c,
        forall|k: int| 0 <= k < first_index(s, c) ==> s[k] != c,
    decreases s.len(),
{
    if s.len() > 0 && s[0] != c {
        lemma_first_index(s.drop_first(), c);
        assert forall|k: int| 0 <= k < first_index(s, c) implies s[k] != c by {
            if k > 0 {
                assert(s[k] == s.drop_first()[k - 1]);
            }
        }
    }
}

/// The opcode location that a text denotes: a decimal index, or two of them
/// with a dot between.
pub open spec fn spec_parse_opcode_location(s: Seq<char>) -> Option<OpcodeLocation> {
    let dot = first_index(s, '.');
    if dot == s.len() {
        match decimal_value(s) {
            Some(i) => if i <= usize::MAX {
                Some(OpcodeLocation::Acir(i as usize))
            } else {
                None
            },
            None => None,
        }
    } else {
        match (decimal_value(s.subrange(0, dot)), decimal_value(s.subrange(dot + 1, s.len() as int))) {
            (Some(a), Some(b)) => if a <= usize::MAX && b <= usize::MAX {
                Some(OpcodeLocation::Brillig { acir_index: a as usize, brillig_index: b as usize })
            } else {
                None
            },
            _ => None,
        }
    }
}

/// The location that a text denotes: `circuit:opcode` or `circuit:opcode:function`.
pub open spec fn spec_parse_debug_location(s: Seq<char>) -> Option<DebugLocation> {
    let colon = first_index(s, ':');
    if colon == s.len() {
        None
    } else {
        let rest = s.subrange(colon + 1, s.len() as int);
        let second = first_index(rest, ':');
        let function = if second == rest.len() {
            Some(None)
        } else {
            match decimal_value(rest.subrange(second + 1, rest.len() as int)) {
                Some(f) => if f <= u32::MAX {
                    Some(Some(f as u32))
                } else {
                    None
                },
                None => None,
            }
        };
        match (
            decimal_value(s.subrange(0, colon)),
            spec_parse_opcode_location(rest.subrange(0, second)),
            function,
        ) {
            (Some(circuit), Some(opcode_location), Some(brillig_function_id)) => if circuit
                <= u32::MAX {
                Some(
                    DebugLocation {
                        circuit_id: circuit as u32,
                        opcode_location,
                        brillig_function_id,
                    },
                )
            } else {
                None
            },
            _ => None,
        }
    }
}

/// The position of the first `c` in `chars[from..to]`, or `to`.
fn find_char(chars: &Vec<char>, from: usize, to: usize, c: char) -> (at: usize)
    requires
        from <= to <= chars.len(),
    ensures
        from <= at <= to,
        at - from == first_index(chars@.subrange(from as int, to as int), c),
{
    let ghost run = chars@.subrange(from as int, to as int);
    proof {
        lemma_first_index(run, c);
    }
    let mut i: usize = from;
    while i < to
        invariant
            from <= i <= to <= chars.len(),
            run == chars@.subrange(from as int, to as int),
            forall|k: int| 0 <= k < i - from ==> run[k] != c,
            0 <= first_index(run, c) <= run.len(),
            first_index(run, c) < run.len() ==> run[first_index(run, c)] == c,
            forall|k: int| 0 <= k < first_index(run, c) ==> run[k] != c,
        decreases to - i,
    {
        if chars[i] == c {
            assert(run[i - from] == c);
            return i;
        }
        i += 1;
    }
    i
}

fn parse_opcode_location(chars: &Vec<char>, from: usize, to: usize) -> (l: Option<OpcodeLocation>)
    requires
        from <= to <= chars.len(),
    ensures
        l == spec_parse_opcode_location(chars@.subrange(from as int, to as int)),
{
    let ghost run = chars@.subrange(from as int, to as int);
    let dot = find_char(chars, from, to, '.');
    if dot == to {
        assert(run.subrange(0, run.len() as int) =~= run);
        match parse_decimal(chars, from, to, usize::MAX as u128) {
            Some(i) => Some(OpcodeLocation::Acir(i as usize)),
            None => None,
        }
    } else {
        assert(run.subrange(0, dot - from) =~= chars@.subrange(from as int, dot as int));
        assert(run.subrange(dot - from + 1, run.len() as int) =~= chars@.subrange(
            dot + 1,
            to as int,
        ));
        let a = parse_decimal(chars, from, dot, usize::MAX as u128);
        let b = parse_decimal(chars, dot + 1, to, usize::MAX as u128);
        match (a, b) {
            (Some(a), Some(b)) => Some(
                OpcodeLocation::Brillig { acir_index: a as usize, brillig_index: b as usize },
            ),
            _ => None,
        }
    }
}

impl OpcodeLocation {
    /// Appends the text of the location.
    pub fn push_text(&self, text: &mut String)
        ensures
            final(text)@ == old(text)@ + opcode_location_text(*self),
    {
        match self {
            OpcodeLocation::Acir(i) => {
                push_decimal(text, *i as u128);
            },
            OpcodeLocation::Brillig { acir_index, brillig_index } => {
                push_decimal(text, *acir_index as u128);
                push_char(text, '.');
                push_decimal(text, *brillig_index as u128);
                assert(text@ =~= old(text)@ + opcode_location_text(*self));
            },
        }
    }
}

impl DebugLocation {
    /// Appends the text of the location.
    pub fn push_text(&self, text: &mut String)
        ensures
            final(text)@ == old(text)@ + debug_location_text(*self),
    {
        push_decimal(text, self.circuit_id as u128);
        push_char(text, ':');
        self.opcode_location.push_text(text);
        match self.brillig_function_id {
            Some(f) => {
                push_char(text, ':');
                push_decimal(text, f as u128);
            },
            None => {},
        }
        assert(text@ =~= old(text)@ + debug_location_text(*self));
    }

    /// The text of the location.
    pub fn to_text(&self) -> (text: String)
        ensures
            text@ == debug_location_text(*self),
    {
        let mut text = String::new();
        self.push_text(&mut text);
        assert(Seq::<char>::empty() + debug_location_text(*self) =~= debug_location_text(*self));
        text
    }

    /// Reads a location from its text. `None` where the text is not of the
    /// form `circuit:opcode` or `circuit:opcode:function`, or a number in it
    /// does not fit its type.
    pub fn parse(text: &str) -> (l: Option<DebugLocation>)
        ensures
            l == spec_parse_debug_location(text@),
    {
        let chars = chars_of(text);
        let n = chars.len();
        assert(chars@.subrange(0, n as int) =~= chars@);
        let colon = find_char(&chars, 0, n, ':');
        if colon == n {
            return None;
        }
        let ghost rest = chars@.subrange(colon + 1, n as int);
        let second = find_char(&chars, colon + 1, n, ':');
        proof {
            assert(chars@.subrange(0, n as int).subrange(0, colon as int) =~= chars@.subrange(
                0,
                colon as int,
            ));
            assert(rest.subrange(0, second - colon - 1) =~= chars@.subrange(
                colon + 1,
                second as int,
            ));
            if second < n {
                assert(rest.subrange(second - colon, rest.len() as int) =~= chars@.subrange(
                    second + 1,
                    n as int,
                ));
            }
        }
        let function: Option<Option<u32>> = if second == n {
            Some(None)
        } else {
            match parse_decimal(&chars, second + 1, n, u32::MAX as u128) {
                Some(f) => Some(Some(f as u32)),
                None => None,
            }
        };
        let circuit = parse_decimal(&chars, 0, colon, u32::MAX as u128);
        let opcode = parse_opcode_location(&chars, colon + 1, second);
        match (circuit, opcode, function) {
            (Some(circuit), Some(opcode_location), Some(brillig_function_id)) => Some(
                DebugLocation { circuit_id: circuit as u32, opcode_location, brillig_function_id },
            ),
            _ => None,
        }
    }
}

/// Every character of a decimal form is a decimal digit.
pub proof fn lemma_decimal_digits(n: nat)
    ensures
        forall|k: int| 0 <= k < decimal(n).len() ==> digit_value(#[trigger] decimal(n)[k]).is_some(),
    decreases n,
{
    if n >= 10 {
        lemma_decimal_digits(n / 10);
        assert forall|k: int| 0 <= k < decimal(n).len() implies digit_value(
            #[trigger] decimal(n)[k],
        ).is_some() by {
            if k < decimal(n / 10).len() {
                assert(decimal(n)[k] == decimal(n / 10)[k]);
            }
        }
    }
}

/// Where `c` does not occur in `a`, the first `c` of `a`, `c`, `b` is the one between.
pub proof fn lemma_first_index_after(a: Seq<char>, c: char, b: Seq<char>)
    requires
        forall|k: int| 0 <= k < a.len() ==> a[k] != c,
    ensures
        first_index(a + seq![c] + b, c) == a.len(),
        first_index(a, c) == a.len(),
    decreases a.len(),
{
    let s = a + seq![c] + b;
    if a.len() > 0 {
        assert(s[0] == a[0]);
        assert(s.drop_first() =~= a.drop_first() + seq![c] + b);
        assert forall|k: int| 0 <= k < a.drop_first().len() implies a.drop_first()[k] != c by {
            assert(a.drop_first()[k] == a[k + 1]);
        }
        lemma_first_index_after(a.drop_first(), c, b);
    } else {
        assert(s[0] == c);
    }
}

/// Reading the text of an opcode location gives the location.
pub proof fn lemma_parse_opcode_location_text(l: OpcodeLocation)
    ensures
        spec_parse_opcode_location(opcode_location_text(l)) == Some(l),
{
    match l {
        OpcodeLocation::Acir(i) => {
            lemma_decimal_digits(i as nat);
            lemma_decimal_value(i as nat);
            lemma_first_index_after(decimal(i as nat), '.', Seq::empty());
        },
        OpcodeLocation::Brillig { acir_index, brillig_index } => {
            let a = decimal(acir_index as nat);
            let b = decimal(brillig_index as nat);
            let s = a + seq!['.'] + b;
            lemma_decimal_digits(acir_index as nat);
            lemma_decimal_value(acir_index as nat);
            lemma_decimal_value(brillig_index as nat);
            lemma_first_index_after(a, '.', b);
            assert(s.subrange(0, a.len() as int) =~= a);
            assert(s.subrange(a.len() as int + 1, s.len() as int) =~= b);
        },
    }
}

/// Reading the text of a location gives the location.
pub proof fn lemma_parse_debug_location_text(l: DebugLocation)
    ensures
        spec_parse_debug_location(debug_location_text(l)) == Some(l),
{
    let c = decimal(l.circuit_id as nat);
    let o = opcode_location_text(l.opcode_location);
    lemma_decimal_digits(l.circuit_id as nat);
    lemma_decimal_value(l.circuit_id as nat);
    lemma_parse_opcode_location_text(l.opcode_location);
    assert forall|k: int| 0 <= k < o.len() implies o[k] != ':' by {
        match l.opcode_location {
            OpcodeLocation::Acir(i) => {
                lemma_decimal_digits(i as nat);
            },
            OpcodeLocation::Brillig { acir_index, brillig_index } => {
                lemma_decimal_digits(acir_index as nat);
                lemma_decimal_digits(brillig_index as nat);
                let a = decimal(acir_index as nat);
                if k < a.len() {
                    assert(o[k] == a[k]);
                } else if k > a.len() {
                    assert(o[k] == decimal(brillig_index as nat)[k - a.len() - 1]);
                }
            },
        }
    }
    match l.brillig_function_id {
        None => {
            let s = c + seq![':'] + o;
            lemma_first_index_after(c, ':', o);
            assert(s.subrange(0, c.len() as int) =~= c);
            let rest = s.subrange(c.len() as int + 1, s.len() as int);
            assert(rest =~= o);
            lemma_first_index_after(o, ':', Seq::empty());
            assert(rest.subrange(0, rest.len() as int) =~= o);
        },
        Some(f) => {
            let d = decimal(f as nat);
            let s = c + seq![':'] + o + seq![':'] + d;
            lemma_decimal_value(f as nat);
            assert(s =~= c + seq![':'] + (o + seq![':'] + d));
            lemma_first_index_after(c, ':', o + seq![':'] + d);
            assert(s.subrange(0, c.len() as int) =~= c);
            let rest = s.subrange(c.len() as int + 1, s.len() as int);
            assert(rest =~= o + seq![':'] + d);
            lemma_first_index_after(o, ':', d);
            assert(rest.subrange(0, o.len() as int) =~= o);
            assert(rest.subrange(o.len() as int + 1, rest.len() as int) =~= d);
        },
    }
}

} // verus!
