//! The MiMC7 permutation over the native field, in value form.
use vstd::prelude::*;
use vstd::arithmetic::power::{pow, lemma_pow1, lemma_pow_adds};
use vstd::arithmetic::div_mod::{lemma_add_mod_noop, lemma_mul_mod_noop, lemma_mul_mod_noop_right, lemma_small_mod};
use crate::field::{Scalar, modulus};

verus! {

/// The number of rounds, and the length of a round-constant table.
pub const MIMC7_ROUNDS: usize = 91;

/// The integer values of a sequence of field elements.
pub open spec fn vals(s: Seq<Scalar>) -> Seq<int> {
    s.map_values(|x: Scalar| x.val())
}

/// Every element of `s` is a canonical field element.
pub open spec fn all_wf(s: Seq<Scalar>) -> bool {
    forall|i: int| 0 <= i < s.len() ==> #[trigger] s[i].wf()
}

/// One round: `(msg + key + c)^7` in the field.
pub open spec fn round_value(msg: int, key: int, c: int) -> int {
    pow((msg + key + c) % modulus(), 7) % modulus()
}

/// The constant that round `i` adds. Round 0 adds none, so entry 0 of the
/// table is never read.
pub open spec fn round_constant(constants: Seq<int>, i: int) -> int {
    if i == 0 {
        0
    } else {
        constants[i]
    }
}

/// The state after the first `k` rounds.
pub open spec fn mimc7_state(xl: int, xr: int, constants: Seq<int>, k: nat) -> int
    decreases k,
{
    if k == 0 {
        xl
    } else {
        let prev = mimc7_state(xl, xr, constants, (k - 1) as nat);
        round_value(prev, xr, round_constant(constants, k - 1))
    }
}

/// The permutation: the state after all rounds, plus `xl + 2 * xr`.
pub open spec fn mimc7_value(xl: int, xr: int, constants: Seq<int>) -> int {
    (mimc7_state(xl, xr, constants, MIMC7_ROUNDS as nat) + xl + 2 * xr) % modulus()
}

/// The chain `x2 = x*x`, `x4 = x2*x2`, `x3 = x*x2`, `x7 = x3*x4`, each step
/// reduced, gives `x^7` reduced.
pub proof fn lemma_seventh_power(x: int)
    ensures
        ({
            let p = modulus();
            let x2 = (x * x) % p;
            let x4 = (x2 * x2) % p;
            let x3 = (x * x2) % p;
            (x3 * x4) % p == pow(x, 7) % p
        }),
{
    let p = modulus();
    let a = x * x;
    lemma_mul_mod_noop_right(x, a, p);
    lemma_mul_mod_noop(a, a, p);
    lemma_mul_mod_noop(x * a, a * a, p);
    lemma_pow1(x);
    lemma_pow_adds(x, 1, 1);
    lemma_pow_adds(x, 2, 2);
    lemma_pow_adds(x, 1, 2);
    lemma_pow_adds(x, 3, 4);
}

/// `(x + y + z) % p` built from two reduced additions.
pub(crate) proof fn lemma_add3_mod(x: int, y: int, z: int)
    ensures
        (((x + y) % modulus()) + z) % modulus() == (x + y + z) % modulus(),
{
    let p = modulus();
    lemma_add_mod_noop(x + y, z, p);
    lemma_add_mod_noop((x + y) % p, z, p);
    assert(((x + y) % p) % p == (x + y) % p) by {
        lemma_small_mod(((x + y) % p) as nat, p as nat);
    }
}

/// One round of the permutation: `(msg + key + constant)^7`.
pub fn mimc7_round(msg: Scalar, key: Scalar, constant: &Scalar) -> (r: Scalar)
    requires
        msg.wf(),
        key.wf(),
        constant.wf(),
    ensures
        r.wf(),
        r.val() == round_value(msg.val(), key.val(), constant.val()),
{
    let s = msg.add(&key);
    let x = s.add(constant);
    let x2 = x.square();
    let x4 = x2.square();
    let r = x.mul(&x2).mul(&x4);
    proof {
        lemma_add3_mod(msg.val(), key.val(), constant.val());
        lemma_seventh_power(x.val());
    }
    r
}

/// The permutation of `(xl, xr)` under a table of `MIMC7_ROUNDS` round constants.
pub fn mimc7(xl: Scalar, xr: Scalar, constants: &[Scalar]) -> (r: Scalar)
    requires
        xl.wf(),
        xr.wf(),
        constants@.len() == MIMC7_ROUNDS,
        all_wf(constants@),
    ensures
        r.wf(),
        r.val() == mimc7_value(xl.val(), xr.val(), vals(constants@)),
{
    let ghost cv = vals(constants@);
    let mut res = mimc7_round(xl, xr, &Scalar::zero());
    assert(mimc7_state(xl.val(), xr.val(), cv, 1) == round_value(xl.val(), xr.val(), 0)) by {
        reveal_with_fuel(mimc7_state, 2);
    }
    let mut i: usize = 1;
    while i < MIMC7_ROUNDS
        invariant
            1 <= i <= MIMC7_ROUNDS,
            constants@.len() == MIMC7_ROUNDS,
            all_wf(constants@),
            cv == vals(constants@),
            xl.wf(),
            xr.wf(),
            res.wf(),
            res.val() == mimc7_state(xl.val(), xr.val(), cv, i as nat),
        decreases MIMC7_ROUNDS - i,
    {
        res = mimc7_round(res, xr, &constants[i]);
        i = i + 1;
    }
    let a = res.add(&xr);
    let b = a.add(&xl);
    let c = b.add(&xr);
    proof {
        let p = modulus();
        let s = res.val();
        lemma_add3_mod(s, xr.val(), xl.val());
        lemma_add3_mod(s + xr.val(), xl.val(), xr.val());
        assert(s + xr.val() + xl.val() + xr.val() == s + xl.val() + 2 * xr.val());
    }
    c
}

} // verus!
