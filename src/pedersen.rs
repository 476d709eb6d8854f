//! Pedersen commitments `msg * G_value + rand * G_random` on Jubjub.
use vstd::prelude::*;
use crate::field::EmbeddedScalar;
use crate::curve::{Point, edwards_add, edwards_mul};
use crate::constants::{
    randomness_generator, value_commitment_randomness_generator,
    value_commitment_value_generator, value_generator,
};

verus! {

/// The commitment to `msg` under randomness `rand`.
pub open spec fn commitment(msg: int, rand: int) -> (int, int) {
    edwards_add(
        edwards_mul(value_generator(), msg as nat),
        edwards_mul(randomness_generator(), rand as nat),
    )
}

/// An opening: the committed value and the randomness that hides it.
#[derive(Clone, Copy, Debug)]
pub struct PedersenCommit {
    pub msg: EmbeddedScalar,
    pub rand: EmbeddedScalar,
}

impl PedersenCommit {
    pub open spec fn wf(&self) -> bool {
        self.msg.wf() && self.rand.wf()
    }

    /// The commitment point of this opening.
    pub fn commit(&self) -> (r: Point)
        requires
            self.wf(),
        ensures
            r.wf(),
            r@ == commitment(self.msg.val(), self.rand.val()),
    {
        let m = value_commitment_value_generator().mul(&self.msg);
        let h = value_commitment_randomness_generator().mul(&self.rand);
        m.add(&h)
    }
}

/// The inputs of a commitment circuit: the opening where it is known (proof
/// creation), none where only the shape is wanted (parameter generation).
pub struct PedersenCommitCircuit {
    pub pedersen_commitment: Option<PedersenCommit>,
}

} // verus!
