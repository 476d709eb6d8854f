//! Points of the Jubjub curve in affine coordinates `(u, v)` over the native
//! field, with the group law delegated to `jubjub`.
use vstd::prelude::*;
use vstd::arithmetic::power::{pow, lemma1_pow};
use vstd::arithmetic::div_mod::lemma_small_mod;
use crate::field::{EmbeddedScalar, Scalar, limbs_value, modulus};

verus! {

/// The `d` of the twisted Edwards equation `-u^2 + v^2 = 1 + d u^2 v^2`.
pub open spec fn edwards_d() -> int {
    limbs_value(0x0106_5fd6_d634_3eb1, 0x292d_7f6d_3757_9d26, 0xf5fd_9207_e6bd_7fd4, 0x2a93_18e7_4bfa_2b48)
}

/// `(u, v)` lies on the curve.
pub open spec fn on_curve(p: (int, int)) -> bool {
    let (u, v) = p;
    (v * v - u * u) % modulus() == (1 + edwards_d() * u * u * v * v) % modulus()
}

/// The inverse of `x` in the native field, `x^(p-2)`, which is 0 for 0.
pub open spec fn field_inv(x: int) -> int {
    pow(x % modulus(), (modulus() - 2) as nat) % modulus()
}

/// The complete twisted Edwards addition law.
pub open spec fn edwards_add(a: (int, int), b: (int, int)) -> (int, int) {
    let (u1, v1) = a;
    let (u2, v2) = b;
    let t = edwards_d() * u1 * u2 * v1 * v2;
    (
        ((u1 * v2 + v1 * u2) * field_inv(1 + t)) % modulus(),
        ((v1 * v2 + u1 * u2) * field_inv(1 - t)) % modulus(),
    )
}

/// The group's neutral element.
pub open spec fn identity_point() -> (int, int) {
    (0, 1)
}

/// The inverse of a point: `(-u, v)`.
pub open spec fn edwards_neg(a: (int, int)) -> (int, int) {
    ((-a.0) % modulus(), a.1)
}

/// `k` copies of `a` added together.
pub open spec fn edwards_mul(a: (int, int), k: nat) -> (int, int)
    decreases k,
{
    if k == 0 {
        identity_point()
    } else {
        edwards_add(edwards_mul(a, (k - 1) as nat), a)
    }
}

/// A curve point by its affine coordinates.
#[derive(Clone, Copy, Debug, PartialEq, Eq)]
pub struct Point {
    pub u: Scalar,
    pub v: Scalar,
}

impl Point {
    pub open spec fn view(&self) -> (int, int) {
        (self.u.val(), self.v.val())
    }

    /// Canonical coordinates of a point on the curve.
    pub open spec fn wf(&self) -> bool {
        self.u.wf() && self.v.wf() && on_curve(self.view())
    }

    /// The neutral element `(0, 1)`.
    pub fn identity() -> (r: Point)
        ensures
            r.wf(),
            r@ == identity_point(),
    {
        Point { u: Scalar::zero(), v: Scalar::one() }
    }

    /// Relies on `Add` for `jubjub::SubgroupPoint` and the conversion to affine
    /// coordinates: the sum under the curve's addition law, again on the curve.
    #[verifier::external_body]
    pub(crate) fn add(&self, o: &Point) -> (r: Point)
        requires
            self.wf(),
            o.wf(),
        ensures
            r.wf(),
            r@ == edwards_add(self@, o@),
    {
        let a = jubjub::SubgroupPoint::from_raw_unchecked(
            bls12_381::Scalar::from_bytes(&self.u.bytes).unwrap(),
            bls12_381::Scalar::from_bytes(&self.v.bytes).unwrap(),
        );
        let b = jubjub::SubgroupPoint::from_raw_unchecked(
            bls12_381::Scalar::from_bytes(&o.u.bytes).unwrap(),
            bls12_381::Scalar::from_bytes(&o.v.bytes).unwrap(),
        );
        let s = jubjub::AffinePoint::from(jubjub::ExtendedPoint::from(a + b));
        Point {
            u: Scalar { bytes: s.get_u().to_bytes() },
            v: Scalar { bytes: s.get_v().to_bytes() },
        }
    }

    /// Relies on `Sub` for `jubjub::SubgroupPoint` and the conversion to affine
    /// coordinates: the sum with the inverse of `o`.
    #[verifier::external_body]
    pub(crate) fn sub(&self, o: &Point) -> (r: Point)
        requires
            self.wf(),
            o.wf(),
        ensures
            r.wf(),
            r@ == edwards_add(self@, edwards_neg(o@)),
    {
        let a = jubjub::SubgroupPoint::from_raw_unchecked(
            bls12_381::Scalar::from_bytes(&self.u.bytes).unwrap(),
            bls12_381::Scalar::from_bytes(&self.v.bytes).unwrap(),
        );
        let b = jubjub::SubgroupPoint::from_raw_unchecked(
            bls12_381::Scalar::from_bytes(&o.u.bytes).unwrap(),
            bls12_381::Scalar::from_bytes(&o.v.bytes).unwrap(),
        );
        let s = jubjub::AffinePoint::from(jubjub::ExtendedPoint::from(a - b));
        Point {
            u: Scalar { bytes: s.get_u().to_bytes() },
            v: Scalar { bytes: s.get_v().to_bytes() },
        }
    }

    /// Relies on `Mul<Fr>` for `jubjub::SubgroupPoint` and the conversion to
    /// affine coordinates: `k` copies of the point added, for the canonical `k`.
    #[verifier::external_body]
    pub(crate) fn mul(&self, k: &EmbeddedScalar) -> (r: Point)
        requires
            self.wf(),
            k.wf(),
        ensures
            r.wf(),
            r@ == edwards_mul(self@, k.val() as nat),
    {
        let a = jubjub::SubgroupPoint::from_raw_unchecked(
            bls12_381::Scalar::from_bytes(&self.u.bytes).unwrap(),
            bls12_381::Scalar::from_bytes(&self.v.bytes).unwrap(),
        );
        let k = jubjub::Fr::from_bytes(&k.bytes).unwrap();
        let s = jubjub::AffinePoint::from(jubjub::ExtendedPoint::from(a * k));
        Point {
            u: Scalar { bytes: s.get_u().to_bytes() },
            v: Scalar { bytes: s.get_v().to_bytes() },
        }
    }
}

/// Adding a canonical point to the neutral element gives the point back.
pub proof fn lemma_identity_add(a: (int, int))
    requires
        0 <= a.0 < modulus(),
        0 <= a.1 < modulus(),
    ensures
        edwards_add(identity_point(), a) == a,
{
    let p = modulus();
    let t = edwards_d() * 0 * a.0 * 1 * a.1;
    assert(t == 0);
    lemma_small_mod(1, p as nat);
    lemma1_pow((p - 2) as nat);
    assert(field_inv(1) == 1);
    assert((0 * a.1 + 1 * a.0) * 1 == a.0);
    assert((1 * a.1 + 0 * a.0) * 1 == a.1);
    lemma_small_mod(a.0 as nat, p as nat);
    lemma_small_mod(a.1 as nat, p as nat);
}

/// One copy of a canonical point is the point.
pub proof fn lemma_mul_one(a: (int, int))
    requires
        0 <= a.0 < modulus(),
        0 <= a.1 < modulus(),
    ensures
        edwards_mul(a, 1) == a,
{
    reveal_with_fuel(edwards_mul, 2);
    lemma_identity_add(a);
}

} // verus!
