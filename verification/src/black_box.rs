//! The native operations of the bytecode machine that stand for the
//! circuit's black-box functions.

use vstd::prelude::*;

verus! {

/// The address of a cell of the machine's memory.
#[derive(Clone, Copy, Debug, PartialEq, Eq, Hash, Structural)]
pub struct MemoryAddress(pub usize);

/// A fixed-size array in memory: where it starts and how many cells it has.
#[derive(Clone, Copy, Debug, PartialEq, Eq, Hash, Structural)]
pub struct HeapArray {
    pub pointer: MemoryAddress,
    pub size: usize,
}

/// A vector in memory: the cell that holds where it starts and the cell that
/// holds its length.
#[derive(Clone, Copy, Debug, PartialEq, Eq, Hash, Structural)]
pub struct HeapVector {
    pub pointer: MemoryAddress,
    pub size: MemoryAddress,
}

/// The black-box operations that the machine runs natively.
#[derive(Clone, Copy, Debug, PartialEq, Eq, Hash, Structural)]
#[allow(inconsistent_fields)]
pub enum BlackBoxOp {
    /// Encrypts a message with AES-128.
    AES128Encrypt { inputs: HeapVector, iv: HeapArray, key: HeapArray, outputs: HeapVector },
    /// The Blake2s hash of the message.
    Blake2s { message: HeapVector, output: HeapArray },
    /// The Blake3 hash of the message.
    Blake3 { message: HeapVector, output: HeapArray },
    /// The Keccak permutation of width 1600.
    Keccakf1600 { input: HeapArray, output: HeapArray },
    /// Checks an ECDSA signature over the curve secp256k1.
    EcdsaSecp256k1 {
        hashed_msg: HeapVector,
        public_key_x: HeapArray,
        public_key_y: HeapArray,
        signature: HeapArray,
        result: MemoryAddress,
    },
    /// Checks an ECDSA signature over the curve secp256r1.
    EcdsaSecp256r1 {
        hashed_msg: HeapVector,
        public_key_x: HeapArray,
        public_key_y: HeapArray,
        signature: HeapArray,
        result: MemoryAddress,
    },
    /// Multi-scalar multiplication over the embedded curve.
    MultiScalarMul { points: HeapVector, scalars: HeapVector, outputs: HeapArray },
    /// Addition over the embedded curve.
    EmbeddedCurveAdd {
        input1_x: MemoryAddress,
        input1_y: MemoryAddress,
        input1_infinite: MemoryAddress,
        input2_x: MemoryAddress,
        input2_y: MemoryAddress,
        input2_infinite: MemoryAddress,
        result: HeapArray,
    },
    BigIntAdd { lhs: MemoryAddress, rhs: MemoryAddress, output: MemoryAddress },
    BigIntSub { lhs: MemoryAddress, rhs: MemoryAddress, output: MemoryAddress },
    BigIntMul { lhs: MemoryAddress, rhs: MemoryAddress, output: MemoryAddress },
    BigIntDiv { lhs: MemoryAddress, rhs: MemoryAddress, output: MemoryAddress },
    BigIntFromLeBytes { inputs: HeapVector, modulus: HeapVector, output: MemoryAddress },
    BigIntToLeBytes { input: MemoryAddress, output: HeapVector },
    Poseidon2Permutation { message: HeapVector, output: HeapArray, len: MemoryAddress },
    Sha256Compression { input: HeapArray, hash_values: HeapArray, output: HeapArray },
    ToRadix {
        input: MemoryAddress,
        radix: MemoryAddress,
        output_pointer: MemoryAddress,
        num_limbs: MemoryAddress,
        output_bits: MemoryAddress,
    },
}

} // verus!
