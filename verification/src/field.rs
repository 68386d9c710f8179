//! Field elements as the debugger sees them: 256-bit unsigned values.

use vstd::prelude::*;

verus! {

/// Two to the power 128.
pub open spec fn pow2_128() -> nat {
    0x1_0000_0000_0000_0000_0000_0000_0000_0000nat
}

/// The order of the circuit's prime field. The elements of the field are
/// the numbers below it.
pub open spec fn field_order() -> nat {
    0x30644e72e131a029b85045b68181585d2833e84879b9709143e1f593f0000001nat
}

/// The sixteen most significant bytes of the field's order.
pub const ORDER_HI: u128 = 0x30644e72e131a029b85045b68181585d;

/// The sixteen least significant bytes of the field's order.
pub const ORDER_LO: u128 = 0x2833e84879b9709143e1f593f0000001;

/// An element of the circuit's prime field, held as the two 128-bit halves of
/// a big-endian representation. The type holds any 256 bits, as a stream of
/// the running program may: `is_canonical` says whether they are an element
/// in its canonical form. The solver reduces what is handed to it.
#[derive(Clone, Copy, Debug, PartialEq, Eq, Hash, Structural)]
pub struct FieldElement {
    /// The sixteen most significant bytes.
    pub hi: u128,
    /// The sixteen least significant bytes.
    pub lo: u128,
}

impl View for FieldElement {
    type V = nat;

    open spec fn view(&self) -> nat {
        (self.hi as nat) * pow2_128() + (self.lo as nat)
    }
}

impl FieldElement {
    /// The additive identity.
    pub fn zero() -> (f: FieldElement)
        ensures
            f@ == 0,
            f == (FieldElement { hi: 0, lo: 0 }),
            f.spec_is_canonical(),
    {
        FieldElement { hi: 0, lo: 0 }
    }

    /// The multiplicative identity.
    pub fn one() -> (f: FieldElement)
        ensures
            f@ == 1,
            f == (FieldElement { hi: 0, lo: 1 }),
            f.spec_is_canonical(),
    {
        FieldElement { hi: 0, lo: 1 }
    }

    /// The element whose value is `x`.
    pub fn from_u128(x: u128) -> (f: FieldElement)
        ensures
            f@ == x,
            f == (FieldElement { hi: 0, lo: x }),
            f.spec_is_canonical(),
    {
        FieldElement { hi: 0, lo: x }
    }

    /// The element with the given halves.
    pub fn from_limbs(hi: u128, lo: u128) -> (f: FieldElement)
        ensures
            f == (FieldElement { hi, lo }),
    {
        FieldElement { hi, lo }
    }

    /// Whether the halves are an element in its canonical form: a number
    /// below the order of the field.
    pub open spec fn spec_is_canonical(self) -> bool {
        self@ < field_order()
    }

    /// Whether the halves are an element in its canonical form.
    pub fn is_canonical(&self) -> (canonical: bool)
        ensures
            canonical == self.spec_is_canonical(),
    {
        proof {
            lemma_order_halves();
            lemma_halves_order(self.hi, self.lo, ORDER_HI, ORDER_LO);
        }
        self.hi < ORDER_HI || (self.hi == ORDER_HI && self.lo < ORDER_LO)
    }

    /// The value modulo 2^128: the low sixteen bytes read as a big-endian integer.
    pub fn to_u128(&self) -> (x: u128)
        ensures
            x as nat == self@ % pow2_128(),
            x == self.lo,
    {
        assert(self@ % pow2_128() == self.lo as nat) by (nonlinear_arith)
            requires
                self@ == (self.hi as nat) * pow2_128() + (self.lo as nat),
                (self.lo as nat) < pow2_128(),
                pow2_128() > 0,
        ;
        self.lo
    }

    pub fn is_zero(&self) -> (b: bool)
        ensures
            b == (self@ == 0),
    {
        assert(self.hi > 0 ==> self@ >= pow2_128()) by (nonlinear_arith)
            requires
                self@ == (self.hi as nat) * pow2_128() + (self.lo as nat),
                pow2_128() > 0,
        ;
        self.hi == 0 && self.lo == 0
    }

    pub fn is_one(&self) -> (b: bool)
        ensures
            b == (self@ == 1),
    {
        assert(self.hi > 0 ==> self@ >= pow2_128()) by (nonlinear_arith)
            requires
                self@ == (self.hi as nat) * pow2_128() + (self.lo as nat),
                pow2_128() > 0,
        ;
        self.hi == 0 && self.lo == 1
    }
}

/// The order of the field is what its two halves say.
pub proof fn lemma_order_halves()
    ensures
        field_order() == (ORDER_HI as nat) * pow2_128() + (ORDER_LO as nat),
{
    assert(0x30644e72e131a029b85045b68181585d2833e84879b9709143e1f593f0000001nat
        == 0x30644e72e131a029b85045b68181585dnat * 0x1_0000_0000_0000_0000_0000_0000_0000_0000nat
        + 0x2833e84879b9709143e1f593f0000001nat);
}

/// Numbers in two halves are ordered as their halves are, the high half first.
pub proof fn lemma_halves_order(hi: u128, lo: u128, other_hi: u128, other_lo: u128)
    ensures
        (hi as nat) * pow2_128() + (lo as nat) < (other_hi as nat) * pow2_128() + (other_lo as nat)
            <==> hi < other_hi || (hi == other_hi && lo < other_lo),
{
    assert((hi as nat) * pow2_128() + (lo as nat) < (other_hi as nat) * pow2_128() + (
    other_lo as nat) <==> hi < other_hi || (hi == other_hi && lo < other_lo))
        by (nonlinear_arith)
        requires
            (lo as nat) < pow2_128(),
            (other_lo as nat) < pow2_128(),
            pow2_128() > 0,
    ;
}

/// The field element that a text denotes for the solver, or `None` where it
/// denotes none: what `FieldElement::try_from_str` of the solver's crate
/// makes of the text.
pub uninterp spec fn spec_field_from_text(text: Seq<char>) -> Option<FieldElement>;

/// The text in which the solver shows a field element: what the `Display`
/// of its crate makes of the element with these two halves.
pub uninterp spec fn spec_field_display(hi: u128, lo: u128) -> Seq<char>;

impl FieldElement {
    /// `FieldElement::try_from_str` of the acvm crate: reads a field element
    /// from decimal or, with an `x` in it, hexadecimal text. Nothing is
    /// claimed of the outcome but that it depends on the text alone.
    #[verifier::external_body]
    pub(crate) fn from_text(text: &str) -> (f: Option<FieldElement>)
        ensures
            f == spec_field_from_text(text@),
    {
        acvm::FieldElement::try_from_str(text).map(
            |parsed| {
                let bytes = parsed.to_be_bytes();
                FieldElement {
                    hi: u128::from_be_bytes(bytes[0..16].try_into().unwrap_or([0u8; 16])),
                    lo: u128::from_be_bytes(bytes[16..32].try_into().unwrap_or([0u8; 16])),
                }
            },
        )
    }

    /// The `Display` of `FieldElement` of the acvm crate, on the element
    /// that the two halves give when they are reduced by the field's order.
    /// Nothing is claimed of the text but that it depends on the halves alone.
    #[verifier::external_body]
    pub(crate) fn display_text(&self) -> (text: String)
        ensures
            text@ == spec_field_display(self.hi, self.lo),
    {
        let mut bytes = [0u8; 32];
        bytes[0..16].copy_from_slice(&self.hi.to_be_bytes());
        bytes[16..32].copy_from_slice(&self.lo.to_be_bytes());
        format!("{}", acvm::FieldElement::from_be_bytes_reduce(&bytes))
    }

    /// Reads a field element from the text in which the solver takes one.
    pub fn try_from_str(text: &str) -> (f: Option<FieldElement>)
        ensures
            f == spec_field_from_text(text@),
    {
        FieldElement::from_text(text)
    }

    /// The text in which the solver shows the element.
    pub fn to_display(&self) -> (text: String)
        ensures
            text@ == spec_field_display(self.hi, self.lo),
    {
        self.display_text()
    }
}

/// The low `len` bytes of `n`, most significant first.
pub open spec fn be_bytes(n: nat, len: nat) -> Seq<u8>
    decreases len,
{
    if len == 0 {
        Seq::empty()
    } else {
        be_bytes(n / 256, (len - 1) as nat).push((n % 256) as u8)
    }
}

/// The number that bytes denote, most significant first.
pub open spec fn be_value(bytes: Seq<u8>) -> nat
    decreases bytes.len(),
{
    if bytes.len() == 0 {
        0
    } else {
        be_value(bytes.drop_last()) * 256 + bytes.last() as nat
    }
}

/// The bytes of a number below 256 to the power `len` denote the number.
pub proof fn lemma_be_value_bytes(n: nat, len: nat)
    ensures
        be_bytes(n, len).len() == len,
        be_value(be_bytes(n, len)) == n % pow256(len),
    decreases len,
{
    if len > 0 {
        lemma_be_value_bytes(n / 256, (len - 1) as nat);
        let front = be_bytes(n / 256, (len - 1) as nat);
        assert(be_bytes(n, len).drop_last() =~= front);
        let p = pow256((len - 1) as nat);
        lemma_pow256_positive((len - 1) as nat);
        vstd::arithmetic::div_mod::lemma_breakdown(n as int, 256, p as int);
        assert(256 * (p as int) == (p as int) * 256);
        assert(256 * (((n as int) / 256) % (p as int)) == (((n as int) / 256) % (p as int)) * 256);
    }
}

/// 256 to the power `e`.
pub open spec fn pow256(e: nat) -> nat
    decreases e,
{
    if e == 0 {
        1
    } else {
        pow256((e - 1) as nat) * 256
    }
}

/// 256 to any power is positive.
pub proof fn lemma_pow256_positive(e: nat)
    ensures
        pow256(e) > 0,
    decreases e,
{
    if e > 0 {
        lemma_pow256_positive((e - 1) as nat);
        assert(pow256((e - 1) as nat) * 256 > 0) by (nonlinear_arith)
            requires
                pow256((e - 1) as nat) > 0,
        ;
    }
}

fn push_be_bytes(out: &mut Vec<u8>, n: u128, len: usize)
    ensures
        final(out)@ == old(out)@ + be_bytes(n as nat, len as nat),
    decreases len,
{
    if len == 0 {
        assert(out@ + Seq::<u8>::empty() =~= out@);
    } else {
        push_be_bytes(out, n / 256, len - 1);
        out.push((n % 256) as u8);
        assert(out@ =~= old(out)@ + be_bytes(n as nat, len as nat));
    }
}

impl FieldElement {
    /// The 32 bytes of the element, most significant first.
    pub open spec fn spec_to_be_bytes(self) -> Seq<u8> {
        be_bytes(self.hi as nat, 16) + be_bytes(self.lo as nat, 16)
    }

    /// The 32 bytes of the element, most significant first.
    pub fn to_be_bytes(&self) -> (bytes: Vec<u8>)
        ensures
            bytes@ == self.spec_to_be_bytes(),
            bytes.len() == 32,
    {
        let mut bytes: Vec<u8> = Vec::new();
        push_be_bytes(&mut bytes, self.hi, 16);
        push_be_bytes(&mut bytes, self.lo, 16);
        proof {
            lemma_be_value_bytes(self.hi as nat, 16);
            lemma_be_value_bytes(self.lo as nat, 16);
            assert(bytes@ =~= self.spec_to_be_bytes());
        }
        bytes
    }

    /// The element that 32 bytes hold, most significant first; `None` for
    /// any other number of bytes.
    pub fn from_be_bytes(bytes: &[u8]) -> (f: Option<FieldElement>)
        ensures
            f.is_some() == (bytes@.len() == 32),
            f matches Some(e) ==> e.hi == be_value(bytes@.subrange(0, 16)) && e.lo == be_value(
                bytes@.subrange(16, 32),
            ),
    {
        if bytes.len() != 32 {
            return None;
        }
        let mut hi: u128 = 0;
        let mut lo: u128 = 0;
        let mut i: usize = 0;
        assert(bytes@.subrange(0, 0) =~= Seq::<u8>::empty());
        assert(bytes@.subrange(16, 16) =~= Seq::<u8>::empty());
        proof {
            lemma_pow256_monotonic(0, 16);
        }
        while i < 16
            invariant
                0 <= i <= 16,
                bytes.len() == 32,
                hi == be_value(bytes@.subrange(0, i as int)),
                lo == be_value(bytes@.subrange(16, 16 + i as int)),
                hi < pow256(i as nat),
                lo < pow256(i as nat),
                pow256(i as nat) <= pow256(16),
                pow256(16) == 0x1_0000_0000_0000_0000_0000_0000_0000_0000,
            decreases 16 - i,
        {
            proof {
                assert(bytes@.subrange(0, i + 1).drop_last() =~= bytes@.subrange(0, i as int));
                assert(bytes@.subrange(16, 16 + i + 1).drop_last() =~= bytes@.subrange(
                    16,
                    16 + i as int,
                ));
                lemma_pow256_monotonic((i + 1) as nat, 16);
                assert((hi as nat) * 256 + 255 < pow256(i as nat) * 256) by (nonlinear_arith)
                    requires
                        (hi as nat) < pow256(i as nat),
                ;
                assert((lo as nat) * 256 + 255 < pow256(i as nat) * 256) by (nonlinear_arith)
                    requires
                        (lo as nat) < pow256(i as nat),
                ;
            }
            hi = hi * 256 + bytes[i] as u128;
            lo = lo * 256 + bytes[16 + i] as u128;
            i += 1;
        }
        Some(FieldElement { hi, lo })
    }
}

/// 256 to the power `a` is at most 256 to the power `b` where `a` is at most
/// `b`; and 256 to the power 16 is two to the power 128.
pub proof fn lemma_pow256_monotonic(a: nat, b: nat)
    requires
        a <= b,
    ensures
        pow256(a) <= pow256(b),
        pow256(16) == 0x1_0000_0000_0000_0000_0000_0000_0000_0000,
    decreases b,
{
    if a < b {
        lemma_pow256_monotonic(a, (b - 1) as nat);
        lemma_pow256_positive((b - 1) as nat);
        assert(pow256((b - 1) as nat) <= pow256((b - 1) as nat) * 256) by (nonlinear_arith)
            requires
                pow256((b - 1) as nat) > 0,
        ;
    }
    assert(pow256(16) == 0x1_0000_0000_0000_0000_0000_0000_0000_0000) by {
        reveal_with_fuel(pow256, 17);
    }
}

/// The bytes of an element hold the element: its halves are the values of
/// the two halves of its bytes.
pub proof fn lemma_bytes_round_trip(f: FieldElement)
    ensures
        f.spec_to_be_bytes().len() == 32,
        be_value(f.spec_to_be_bytes().subrange(0, 16)) == f.hi,
        be_value(f.spec_to_be_bytes().subrange(16, 32)) == f.lo,
{
    lemma_be_value_bytes(f.hi as nat, 16);
    lemma_be_value_bytes(f.lo as nat, 16);
    lemma_pow256_monotonic(16, 16);
    assert(f.spec_to_be_bytes().subrange(0, 16) =~= be_bytes(f.hi as nat, 16));
    assert(f.spec_to_be_bytes().subrange(16, 32) =~= be_bytes(f.lo as nat, 16));
}

} // verus!
