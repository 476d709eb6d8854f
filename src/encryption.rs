//! Key-escrow encryption: a ciphertext that the recipient and an auditor can
//! each open, its per-element masks drawn from MiMC7.
use vstd::prelude::*;
use vstd::arithmetic::div_mod::{lemma_small_mod, lemma_sub_mod_noop, lemma_sub_mod_noop_right};
use crate::field::{EmbeddedScalar, Scalar, modulus};
use crate::curve::{Point, edwards_add, edwards_mul, edwards_neg};
use crate::constants::{value_commitment_value_generator, value_generator};
use crate::mimc7::{MIMC7_ROUNDS, all_wf, mimc7, mimc7_value, vals};

verus! {

/// The mask of element `idx` under an anchor whose `u` coordinate is `anchor_u`:
/// MiMC7 of `(u + idx, u + idx)`.
pub open spec fn mask_value(anchor_u: int, idx: int, constants: Seq<int>) -> int {
    let x = (anchor_u + idx) % modulus();
    mimc7_value(x, x, constants)
}

/// The anchor point `rand_k * G_value` that the masks derive from.
pub open spec fn anchor(rand_k: int) -> (int, int) {
    edwards_mul(value_generator(), rand_k as nat)
}

/// A message to encrypt, the recipient's and the auditor's public keys, and
/// the two random exponents.
pub struct Encryption {
    pub msg: Vec<Scalar>,
    pub user_key: Point,
    pub auditor_key: Point,
    pub rand_r: EmbeddedScalar,
    pub rand_k: EmbeddedScalar,
}

/// A ciphertext: three key points and one masked element per message element.
pub struct PCT {
    pub keys: Vec<Point>,
    pub ct: Vec<Scalar>,
}

/// Every point of `s` is valid.
pub open spec fn all_points_wf(s: Seq<Point>) -> bool {
    forall|i: int| 0 <= i < s.len() ==> #[trigger] s[i].wf()
}

impl Encryption {
    pub open spec fn wf(&self) -> bool {
        &&& all_wf(self.msg@)
        &&& self.user_key.wf()
        &&& self.auditor_key.wf()
        &&& self.rand_r.wf()
        &&& self.rand_k.wf()
    }

    /// Encrypts under the given MiMC7 round constants. The keys are
    /// `rand_r * G_value`, `K + rand_r * user_key` and `K + rand_r * auditor_key`
    /// for the anchor `K = rand_k * G_value`; element `idx` is masked by MiMC7
    /// of `u(K) + idx`.
    pub fn encrypt(&self, constants: &[Scalar]) -> (r: PCT)
        requires
            self.wf(),
            constants@.len() == MIMC7_ROUNDS,
            all_wf(constants@),
        ensures
            r.keys@.len() == 3,
            all_points_wf(r.keys@),
            r.keys@[0]@ == edwards_mul(value_generator(), self.rand_r.val() as nat),
            r.keys@[1]@ == edwards_add(
                anchor(self.rand_k.val()),
                edwards_mul(self.user_key@, self.rand_r.val() as nat),
            ),
            r.keys@[2]@ == edwards_add(
                anchor(self.rand_k.val()),
                edwards_mul(self.auditor_key@, self.rand_r.val() as nat),
            ),
            r.ct@.len() == self.msg@.len(),
            all_wf(r.ct@),
            forall|i: int|
                0 <= i < r.ct@.len() ==> (#[trigger] r.ct@[i]).val() == (self.msg@[i].val()
                    + mask_value(anchor(self.rand_k.val()).0, i, vals(constants@))) % modulus(),
    {
        let g = value_commitment_value_generator();
        let k = g.mul(&self.rand_k);
        let enc_pk = self.user_key.mul(&self.rand_r);
        let enc_apk = self.auditor_key.mul(&self.rand_r);

        let mut keys: Vec<Point> = Vec::new();
        keys.push(g.mul(&self.rand_r));
        keys.push(k.add(&enc_pk));
        keys.push(k.add(&enc_apk));

        let mut enc_msg: Vec<Scalar> = Vec::new();
        let mut idx: usize = 0;
        while idx < self.msg.len()
            invariant
                self.wf(),
                constants@.len() == MIMC7_ROUNDS,
                all_wf(constants@),
                k.wf(),
                k@ == anchor(self.rand_k.val()),
                idx <= self.msg@.len(),
                enc_msg@.len() == idx,
                all_wf(enc_msg@),
                forall|i: int|
                    0 <= i < idx ==> (#[trigger] enc_msg@[i]).val() == (self.msg@[i].val()
                        + mask_value(k@.0, i, vals(constants@))) % modulus(),
            decreases self.msg@.len() - idx,
        {
            let bias = Scalar::from_u64(idx as u64);
            let input = k.u.add(&bias);
            let res = mimc7(input, input, constants);
            enc_msg.push(self.msg[idx].add(&res));
            idx = idx + 1;
        }
        PCT { keys, ct: enc_msg }
    }
}

impl PCT {
    /// Recovers the anchor from key `which` (1 for the recipient, 2 for the
    /// auditor) with that party's secret exponent: `keys[which] - secret * keys[0]`.
    pub fn recover_anchor(&self, which: usize, secret: &EmbeddedScalar) -> (r: Point)
        requires
            self.keys@.len() == 3,
            all_points_wf(self.keys@),
            1 <= which <= 2,
            secret.wf(),
        ensures
            r.wf(),
            r@ == edwards_add(
                self.keys@[which as int]@,
                edwards_neg(edwards_mul(self.keys@[0]@, secret.val() as nat)),
            ),
    {
        let blind = self.keys[0].mul(secret);
        self.keys[which].sub(&blind)
    }

    /// Removes the masks that `anchor` gives under the round constants.
    pub fn decrypt(&self, anchor: &Point, constants: &[Scalar]) -> (r: Vec<Scalar>)
        requires
            anchor.wf(),
            all_wf(self.ct@),
            constants@.len() == MIMC7_ROUNDS,
            all_wf(constants@),
        ensures
            r@.len() == self.ct@.len(),
            all_wf(r@),
            forall|i: int|
                0 <= i < r@.len() ==> (#[trigger] r@[i]).val() == (self.ct@[i].val() - mask_value(
                    anchor@.0,
                    i,
                    vals(constants@),
                )) % modulus(),
    {
        let mut msg: Vec<Scalar> = Vec::new();
        let mut idx: usize = 0;
        while idx < self.ct.len()
            invariant
                anchor.wf(),
                all_wf(self.ct@),
                constants@.len() == MIMC7_ROUNDS,
                all_wf(constants@),
                idx <= self.ct@.len(),
                msg@.len() == idx,
                all_wf(msg@),
                forall|i: int|
                    0 <= i < idx ==> (#[trigger] msg@[i]).val() == (self.ct@[i].val() - mask_value(
                        anchor@.0,
                        i,
                        vals(constants@),
                    )) % modulus(),
            decreases self.ct@.len() - idx,
        {
            let bias = Scalar::from_u64(idx as u64);
            let input = anchor.u.add(&bias);
            let res = mimc7(input, input, constants);
            msg.push(self.ct[idx].sub(&res));
            idx = idx + 1;
        }
        msg
    }
}

/// Decrypting with the anchor that encryption used, under the same round
/// constants, gives every message element back: the element with its mask
/// added and then removed.
pub proof fn lemma_decrypt_inverts_encrypt(
    msg: Seq<Scalar>,
    ct: Seq<Scalar>,
    out: Seq<Scalar>,
    anchor_u: int,
    constants: Seq<int>,
)
    requires
        all_wf(msg),
        ct.len() == msg.len(),
        forall|i: int|
            0 <= i < ct.len() ==> (#[trigger] ct[i]).val() == (msg[i].val() + mask_value(anchor_u, i, constants))
                % modulus(),
        out.len() == ct.len(),
        forall|i: int|
            0 <= i < out.len() ==> (#[trigger] out[i]).val() == (ct[i].val() - mask_value(anchor_u, i, constants))
                % modulus(),
    ensures
        forall|i: int| 0 <= i < out.len() ==> (#[trigger] out[i]).val() == msg[i].val(),
{
    let p = modulus();
    assert forall|i: int| 0 <= i < out.len() implies (#[trigger] out[i]).val() == msg[i].val() by {
        let x = msg[i].val();
        let m = mask_value(anchor_u, i, constants);
        assert(msg[i].wf());
        lemma_sub_mod_noop(x + m, m, p);
        lemma_sub_mod_noop_right((x + m) % p, m, p);
        assert(x + m - m == x);
        lemma_small_mod(x as nat, p as nat);
    }
}

/// The inputs of an encryption circuit: the encryption where it is known,
/// none where only the shape is wanted. The masking of message elements is
/// defined on values only (`Encryption::encrypt`); no constraints for it are
/// given here.
pub struct EncryptionCircuit {
    pub encryption: Option<Encryption>,
}

} // verus!
