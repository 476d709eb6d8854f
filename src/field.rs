//! Field elements held as canonical little-endian bytes, with their arithmetic
//! delegated to `bls12_381` (the native field) and `jubjub` (the embedded
//! curve's scalar field). Each wrapper decodes with `from_bytes`, which accepts
//! exactly the canonical encodings, and encodes its result with `to_bytes`,
//! which yields the canonical one.
use vstd::prelude::*;

verus! {

/// The order of the native field, the BLS12-381 scalar field.
pub open spec fn modulus() -> int {
    limbs_value(0xffff_ffff_0000_0001, 0x53bd_a402_fffe_5bfe, 0x3339_d808_09a1_d805, 0x73ed_a753_299d_7d48)
}

/// The order of the prime-order subgroup of Jubjub, the embedded scalar field.
pub open spec fn embedded_modulus() -> int {
    limbs_value(0xd097_0e5e_d6f7_2cb7, 0xa668_2093_ccc8_1082, 0x0667_3b01_0134_3b00, 0x0e7d_b4ea_6533_afa9)
}

/// The integer whose four 64-bit limbs are given, least significant first.
pub open spec fn limbs_value(l0: int, l1: int, l2: int, l3: int) -> int {
    l0 + 0x1_0000_0000_0000_0000 * (l1 + 0x1_0000_0000_0000_0000 * (l2 + 0x1_0000_0000_0000_0000 * l3))
}

/// The integer that eight bytes of `b` from `o` on spell, least significant first.
pub open spec fn word_value(b: Seq<u8>, o: int) -> int {
    b[o] + 0x100 * (b[o + 1] + 0x100 * (b[o + 2] + 0x100 * (b[o + 3] + 0x100 * (b[o + 4]
        + 0x100 * (b[o + 5] + 0x100 * (b[o + 6] + 0x100 * b[o + 7]))))))
}

/// The integer that 32 bytes spell, least significant first.
#[verifier::opaque]
pub open spec fn bytes_value(b: Seq<u8>) -> int {
    limbs_value(word_value(b, 0), word_value(b, 8), word_value(b, 16), word_value(b, 24))
}

/// An element of the native field.
#[derive(Clone, Copy, Debug, PartialEq, Eq)]
pub struct Scalar {
    pub bytes: [u8; 32],
}

impl Scalar {
    /// The integer that the element stands for.
    pub open spec fn val(&self) -> int {
        bytes_value(self.bytes@)
    }

    /// The bytes are the canonical encoding of an element.
    pub open spec fn wf(&self) -> bool {
        0 <= self.val() < modulus()
    }

    /// Relies on `bls12_381::Scalar::zero`: the additive identity.
    #[verifier::external_body]
    pub(crate) fn zero() -> (r: Scalar)
        ensures
            r.wf(),
            r.val() == 0,
    {
        Scalar { bytes: bls12_381::Scalar::zero().to_bytes() }
    }

    /// Relies on `bls12_381::Scalar::one`: the multiplicative identity.
    #[verifier::external_body]
    pub(crate) fn one() -> (r: Scalar)
        ensures
            r.wf(),
            r.val() == 1,
    {
        Scalar { bytes: bls12_381::Scalar::one().to_bytes() }
    }

    /// Relies on `From<u64>` for `bls12_381::Scalar`: the field element `n`.
    #[verifier::external_body]
    pub(crate) fn from_u64(n: u64) -> (r: Scalar)
        ensures
            r.wf(),
            r.val() == n as int,
    {
        Scalar { bytes: bls12_381::Scalar::from(n).to_bytes() }
    }

    /// Relies on `Add` for `bls12_381::Scalar`: addition modulo the field order.
    #[verifier::external_body]
    pub(crate) fn add(&self, o: &Scalar) -> (r: Scalar)
        requires
            self.wf(),
            o.wf(),
        ensures
            r.wf(),
            r.val() == (self.val() + o.val()) % modulus(),
    {
        let a = bls12_381::Scalar::from_bytes(&self.bytes).unwrap();
        let b = bls12_381::Scalar::from_bytes(&o.bytes).unwrap();
        Scalar { bytes: (a + b).to_bytes() }
    }

    /// Relies on `Sub` for `bls12_381::Scalar`: subtraction modulo the field order.
    #[verifier::external_body]
    pub(crate) fn sub(&self, o: &Scalar) -> (r: Scalar)
        requires
            self.wf(),
            o.wf(),
        ensures
            r.wf(),
            r.val() == (self.val() - o.val()) % modulus(),
    {
        let a = bls12_381::Scalar::from_bytes(&self.bytes).unwrap();
        let b = bls12_381::Scalar::from_bytes(&o.bytes).unwrap();
        Scalar { bytes: (a - b).to_bytes() }
    }

    /// Relies on `Mul` for `bls12_381::Scalar`: multiplication modulo the field order.
    #[verifier::external_body]
    pub(crate) fn mul(&self, o: &Scalar) -> (r: Scalar)
        requires
            self.wf(),
            o.wf(),
        ensures
            r.wf(),
            r.val() == (self.val() * o.val()) % modulus(),
    {
        let a = bls12_381::Scalar::from_bytes(&self.bytes).unwrap();
        let b = bls12_381::Scalar::from_bytes(&o.bytes).unwrap();
        Scalar { bytes: (a * b).to_bytes() }
    }

    /// Relies on `bls12_381::Scalar::square`: the square modulo the field order.
    #[verifier::external_body]
    pub(crate) fn square(&self) -> (r: Scalar)
        requires
            self.wf(),
        ensures
            r.wf(),
            r.val() == (self.val() * self.val()) % modulus(),
    {
        let a = bls12_381::Scalar::from_bytes(&self.bytes).unwrap();
        Scalar { bytes: a.square().to_bytes() }
    }
}

/// An element of the embedded curve's scalar field, used as an exponent.
#[derive(Clone, Copy, Debug, PartialEq, Eq)]
pub struct EmbeddedScalar {
    pub bytes: [u8; 32],
}

impl EmbeddedScalar {
    pub open spec fn val(&self) -> int {
        bytes_value(self.bytes@)
    }

    pub open spec fn wf(&self) -> bool {
        0 <= self.val() < embedded_modulus()
    }
}

} // verus!
