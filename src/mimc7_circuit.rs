//! MiMC7 as rank-1 constraints: each round's seventh power is split into four
//! products of degree two.
use vstd::prelude::*;
use crate::field::{Scalar, modulus};
use vstd::arithmetic::power::pow;
use crate::cs::{
    ConstraintSystem, ConstraintView, LinearCombination, TermView, Variable, is_satisfied_by,
    lc_eval, opt_val,
};
use crate::mimc7::{
    MIMC7_ROUNDS, all_wf, lemma_seventh_power, mimc7_state, mimc7_value, round_constant,
    round_value, vals,
};

verus! {

/// The number of variables that one MiMC7 gadget allocates.
pub const MIMC7_VARS: usize = 459;

/// The combination `1 * v`.
pub open spec fn lc1(v: int) -> Seq<TermView> {
    seq![(v, 1int)]
}

/// Where the gadget starts at position `n`: the left input of round `i`.
pub open spec fn xl_var(n: int, i: int) -> int {
    if i == 0 {
        n
    } else {
        n + 2 + 5 * i
    }
}

/// The right input, held by one variable for all rounds.
pub open spec fn xr_var(n: int) -> int {
    n + 2
}

/// The positions of round `i`'s variables: its sum, then its powers 2, 4, 3, 7.
pub open spec fn x1_var(n: int, i: int) -> int {
    n + 3 + 5 * i
}

/// The variable that holds the permutation's result.
pub open spec fn output_var(n: int) -> int {
    n + 3 + 5 * MIMC7_ROUNDS
}

/// The five constraints of round `i`.
pub open spec fn round_shape(n: int, cs: Seq<int>, i: int) -> Seq<ConstraintView> {
    let xl = xl_var(n, i);
    let xr = xr_var(n);
    let x1 = x1_var(n, i);
    let sum = if i == 0 {
        seq![(xl, 1int), (xr, 1int)]
    } else {
        seq![(xl, 1int), (xr, 1int), (0int, cs[i])]
    };
    seq![
        (sum, lc1(0), lc1(x1)),
        (lc1(x1), lc1(x1), lc1(x1 + 1)),
        (lc1(x1 + 1), lc1(x1 + 1), lc1(x1 + 2)),
        (lc1(x1), lc1(x1 + 1), lc1(x1 + 3)),
        (lc1(x1 + 3), lc1(x1 + 2), lc1(x1 + 4)),
    ]
}

/// The constraints of the first `k` rounds.
pub open spec fn rounds_shape(n: int, cs: Seq<int>, k: nat) -> Seq<ConstraintView>
    decreases k,
{
    if k == 0 {
        Seq::empty()
    } else {
        rounds_shape(n, cs, (k - 1) as nat) + round_shape(n, cs, k - 1)
    }
}

/// The constraint that ties the copy of the left input to it.
pub open spec fn copy_shape(n: int) -> ConstraintView {
    (lc1(n), lc1(0), lc1(n + 1))
}

/// The constraint that gives the output `xl + xr + xr + copy`.
pub open spec fn output_shape(n: int) -> ConstraintView {
    (
        seq![(xl_var(n, MIMC7_ROUNDS as int), 1int), (xr_var(n), 1int), (xr_var(n), 1int), (n + 1, 1int)],
        lc1(0),
        lc1(output_var(n)),
    )
}

/// Every constraint of a gadget that starts at position `n`, in order. It
/// depends on the position and the round constants alone.
pub open spec fn mimc7_shape(n: int, cs: Seq<int>) -> Seq<ConstraintView> {
    seq![copy_shape(n)] + rounds_shape(n, cs, MIMC7_ROUNDS as nat) + seq![output_shape(n)]
}

/// The values of round `i`'s five variables. The last is `(x + xr + c)^7`
/// itself; the others are the steps of its decomposition.
pub open spec fn round_witness(xl: Option<int>, xr: Option<int>, cs: Seq<int>, i: int) -> Seq<Option<int>> {
    match (xl, xr) {
        (Some(a), Some(b)) => {
            let p = modulus();
            let s = mimc7_state(a, b, cs, i as nat);
            let x1 = (s + b + round_constant(cs, i)) % p;
            let x2 = (x1 * x1) % p;
            let x4 = (x2 * x2) % p;
            let x3 = (x1 * x2) % p;
            seq![Some(x1), Some(x2), Some(x4), Some(x3), Some(round_value(s, b, round_constant(cs, i)))]
        },
        _ => seq![None, None, None, None, None],
    }
}

/// The values of the first `k` rounds' variables.
pub open spec fn rounds_witness(xl: Option<int>, xr: Option<int>, cs: Seq<int>, k: nat) -> Seq<Option<int>>
    decreases k,
{
    if k == 0 {
        Seq::empty()
    } else {
        rounds_witness(xl, xr, cs, (k - 1) as nat) + round_witness(xl, xr, cs, k - 1)
    }
}

/// The permutation's result where both inputs are known.
pub open spec fn mimc7_output(xl: Option<int>, xr: Option<int>, cs: Seq<int>) -> Option<int> {
    match (xl, xr) {
        (Some(a), Some(b)) => Some(mimc7_value(a, b, cs)),
        _ => None,
    }
}

/// The values of every variable of the gadget, in order of allocation.
pub open spec fn mimc7_witness(xl: Option<int>, xr: Option<int>, cs: Seq<int>) -> Seq<Option<int>> {
    seq![xl, xl, xr] + rounds_witness(xl, xr, cs, MIMC7_ROUNDS as nat) + seq![mimc7_output(xl, xr, cs)]
}

/// The state entering round `i`, where both inputs are known.
pub open spec fn state_at(xl: Option<int>, xr: Option<int>, cs: Seq<int>, i: nat) -> Option<int> {
    match (xl, xr) {
        (Some(a), Some(b)) => Some(mimc7_state(a, b, cs, i)),
        _ => None,
    }
}

fn lc_of(v: Variable, Ghost(bound): Ghost<int>) -> (r: LinearCombination)
    requires
        v.index < bound,
    ensures
        r.view() == lc1(v.index as int),
        crate::cs::vars_below(r.view(), bound),
{
    let mut r = LinearCombination::new();
    r.push_term(v, Scalar::one());
    assert(r.view() =~= lc1(v.index as int));
    r
}

} // verus!

verus! {

/// Allocates and constrains round `i` of a gadget that starts at position `n`.
/// Returns the round's output variable and its value, if known.
fn synthesize_round(
    cs: &mut ConstraintSystem,
    i: usize,
    xl: Variable,
    xr: Variable,
    cur: Option<Scalar>,
    xr_value: Option<Scalar>,
    round_constants: &[Scalar],
    Ghost(n): Ghost<int>,
    Ghost(xl0): Ghost<Option<int>>,
) -> (r: (Variable, Option<Scalar>))
    requires
        old(cs).wf(),
        i < MIMC7_ROUNDS,
        0 <= n,
        n + MIMC7_VARS <= usize::MAX,
        old(cs).num_vars() == n + 3 + 5 * i,
        xl.index == xl_var(n, i as int),
        xr.index == xr_var(n),
        round_constants@.len() == MIMC7_ROUNDS,
        all_wf(round_constants@),
        xl0.is_some() ==> xr_value.is_some(),
        opt_val(cur) == state_at(xl0, opt_val(xr_value), vals(round_constants@), i as nat),
        cur matches Some(s) ==> s.wf(),
        xr_value matches Some(s) ==> s.wf(),
    ensures
        final(cs).wf(),
        final(cs).num_vars() == old(cs).num_vars() + 5,
        final(cs).constraints_view() == old(cs).constraints_view() + round_shape(
            n,
            vals(round_constants@),
            i as int,
        ),
        final(cs).assignment() == old(cs).assignment() + round_witness(
            xl0,
            opt_val(xr_value),
            vals(round_constants@),
            i as int,
        ),
        r.0.index == xl_var(n, i + 1),
        opt_val(r.1) == state_at(xl0, opt_val(xr_value), vals(round_constants@), (i + 1) as nat),
        r.1 matches Some(s) ==> s.wf(),
{
    let ghost cv = vals(round_constants@);
    let ghost xro = opt_val(xr_value);
    let ghost cv0 = cs.constraints_view();
    let ghost a0 = cs.assignment();
    let ghost p = modulus();
    let one = ConstraintSystem::one();

    // x1 = xl + xr + c
    let x1_value = match (cur, xr_value) {
        (Some(a), Some(b)) => {
            let s = a.add(&b);
            if i == 0 {
                Some(s)
            } else {
                Some(s.add(&round_constants[i]))
            }
        },
        _ => None,
    };
    let x1 = cs.allocate(x1_value);
    let mut sum = LinearCombination::new();
    sum.push_term(xl, Scalar::one());
    sum.push_term(xr, Scalar::one());
    if i != 0 {
        sum.push_term(one, round_constants[i]);
    }
    assert(crate::cs::vars_below(sum.view(), cs.num_vars() as int));
    cs.enforce(
        sum,
        lc_of(one, Ghost(cs.num_vars() as int)),
        lc_of(x1, Ghost(cs.num_vars() as int)),
    );

    // x2 = x1 * x1
    let x2_value = match x1_value {
        Some(e) => Some(e.square()),
        None => None,
    };
    let x2 = cs.allocate(x2_value);
    cs.enforce(
        lc_of(x1, Ghost(cs.num_vars() as int)),
        lc_of(x1, Ghost(cs.num_vars() as int)),
        lc_of(x2, Ghost(cs.num_vars() as int)),
    );

    // x4 = x2 * x2
    let x4_value = match x2_value {
        Some(e) => Some(e.square()),
        None => None,
    };
    let x4 = cs.allocate(x4_value);
    cs.enforce(
        lc_of(x2, Ghost(cs.num_vars() as int)),
        lc_of(x2, Ghost(cs.num_vars() as int)),
        lc_of(x4, Ghost(cs.num_vars() as int)),
    );

    // x3 = x1 * x2
    let x3_value = match (x1_value, x2_value) {
        (Some(e), Some(f)) => Some(e.mul(&f)),
        _ => None,
    };
    let x3 = cs.allocate(x3_value);
    cs.enforce(
        lc_of(x1, Ghost(cs.num_vars() as int)),
        lc_of(x2, Ghost(cs.num_vars() as int)),
        lc_of(x3, Ghost(cs.num_vars() as int)),
    );

    // x7 = x3 * x4
    let x7_value = match (x3_value, x4_value) {
        (Some(e), Some(f)) => Some(e.mul(&f)),
        _ => None,
    };
    let x7 = cs.allocate(x7_value);
    cs.enforce(
        lc_of(x3, Ghost(cs.num_vars() as int)),
        lc_of(x4, Ghost(cs.num_vars() as int)),
        lc_of(x7, Ghost(cs.num_vars() as int)),
    );

    proof {
        let sh = round_shape(n, cv, i as int);
        assert(sh[0].0 =~= (if i == 0 {
            seq![(xl_var(n, i as int), 1int), (xr_var(n), 1int)]
        } else {
            seq![(xl_var(n, i as int), 1int), (xr_var(n), 1int), (0int, cv[i as int])]
        }));
        assert(cs.constraints_view().len() == cv0.len() + 5);
        assert(cs.constraints_view()[cv0.len() as int] == sh[0]);
        assert(cs.constraints_view()[cv0.len() + 1int] == sh[1]);
        assert(cs.constraints_view()[cv0.len() + 4int] == sh[4]);
        assert(cs.constraints_view() =~= cv0 + sh);
        match (xl0, xro) {
            (Some(a), Some(b)) => {
                let s = mimc7_state(a, b, cv, i as nat);
                let c = round_constant(cv, i as int);
                let x = (s + b + c) % p;
                crate::mimc7::lemma_add3_mod(s, b, c);
                lemma_seventh_power(x);
                assert(x1_value.unwrap().val() == x);
            },
            _ => {},
        }
        assert(cs.assignment() =~= a0 + round_witness(xl0, xro, cv, i as int));
    }
    (x7, x7_value)
}

} // verus!

verus! {

/// Allocates the inputs `xl`, a copy of `xl` and `xr`, then every round, then
/// the output, constraining each. The constraints are the same whether the
/// values are known or not; where both inputs are known the assignment holds
/// every intermediate value and the result is the permutation's value.
pub fn mimc7_cs(
    cs: &mut ConstraintSystem,
    xl_value: Option<Scalar>,
    xr_value: Option<Scalar>,
    round_constants: &[Scalar],
) -> (r: Option<Scalar>)
    requires
        old(cs).wf(),
        old(cs).num_vars() + MIMC7_VARS <= usize::MAX,
        round_constants@.len() == MIMC7_ROUNDS,
        all_wf(round_constants@),
        xl_value.is_some() ==> xr_value.is_some(),
        xl_value matches Some(s) ==> s.wf(),
        xr_value matches Some(s) ==> s.wf(),
    ensures
        final(cs).wf(),
        final(cs).num_vars() == old(cs).num_vars() + MIMC7_VARS,
        final(cs).constraints_view() == old(cs).constraints_view() + mimc7_shape(
            old(cs).num_vars() as int,
            vals(round_constants@),
        ),
        final(cs).assignment() == old(cs).assignment() + mimc7_witness(
            opt_val(xl_value),
            opt_val(xr_value),
            vals(round_constants@),
        ),
        opt_val(r) == mimc7_output(opt_val(xl_value), opt_val(xr_value), vals(round_constants@)),
        r matches Some(s) ==> s.wf(),
{
    let ghost n = cs.num_vars() as int;
    let ghost cv = vals(round_constants@);
    let ghost xlo = opt_val(xl_value);
    let ghost xro = opt_val(xr_value);
    let ghost cv0 = cs.constraints_view();
    let ghost a0 = cs.assignment();
    let one = ConstraintSystem::one();

    let mut xl = cs.allocate(xl_value);
    let copy_xl = cs.allocate(xl_value);
    cs.enforce(
        lc_of(xl, Ghost(cs.num_vars() as int)),
        lc_of(one, Ghost(cs.num_vars() as int)),
        lc_of(copy_xl, Ghost(cs.num_vars() as int)),
    );
    let xr = cs.allocate(xr_value);

    let mut cur = xl_value;
    let mut i: usize = 0;
    assert(cs.constraints_view() =~= cv0 + seq![copy_shape(n)] + rounds_shape(n, cv, 0));
    assert(cs.assignment() =~= a0 + seq![xlo, xlo, xro] + rounds_witness(xlo, xro, cv, 0));
    assert(state_at(xlo, xro, cv, 0) == xlo);
    while i < MIMC7_ROUNDS
        invariant
            cs.wf(),
            i <= MIMC7_ROUNDS,
            0 <= n,
            n + MIMC7_VARS <= usize::MAX,
            cs.num_vars() == n + 3 + 5 * i,
            xl.index == xl_var(n, i as int),
            xr.index == xr_var(n),
            copy_xl.index == n + 1,
            one.index == 0,
            round_constants@.len() == MIMC7_ROUNDS,
            all_wf(round_constants@),
            cv == vals(round_constants@),
            xlo == opt_val(xl_value),
            xro == opt_val(xr_value),
            xl_value.is_some() ==> xr_value.is_some(),
            xl_value matches Some(s) ==> s.wf(),
            xr_value matches Some(s) ==> s.wf(),
            cur matches Some(s) ==> s.wf(),
            opt_val(cur) == state_at(xlo, xro, cv, i as nat),
            cs.constraints_view() == cv0 + seq![copy_shape(n)] + rounds_shape(n, cv, i as nat),
            cs.assignment() == a0 + seq![xlo, xlo, xro] + rounds_witness(xlo, xro, cv, i as nat),
        decreases MIMC7_ROUNDS - i,
    {
        let ghost cvi = cs.constraints_view();
        let ghost ai = cs.assignment();
        let (x7, x7_value) = synthesize_round(
            cs,
            i,
            xl,
            xr,
            cur,
            xr_value,
            round_constants,
            Ghost(n),
            Ghost(xlo),
        );
        assert(cs.constraints_view() =~= cv0 + seq![copy_shape(n)] + rounds_shape(n, cv, (i + 1) as nat));
        assert(cs.assignment() =~= a0 + seq![xlo, xlo, xro] + rounds_witness(xlo, xro, cv, (i + 1) as nat));
        xl = x7;
        cur = x7_value;
        i = i + 1;
    }

    let output_value = match (cur, xr_value, xl_value) {
        (Some(e), Some(b), Some(a)) => Some(e.add(&b).add(&a).add(&b)),
        _ => None,
    };
    let output = cs.allocate(output_value);
    let mut sum = LinearCombination::new();
    sum.push_term(xl, Scalar::one());
    sum.push_term(xr, Scalar::one());
    sum.push_term(xr, Scalar::one());
    sum.push_term(copy_xl, Scalar::one());
    assert(crate::cs::vars_below(sum.view(), cs.num_vars() as int));
    assert(sum.view() =~= output_shape(n).0);
    cs.enforce(
        sum,
        lc_of(one, Ghost(cs.num_vars() as int)),
        lc_of(output, Ghost(cs.num_vars() as int)),
    );
    proof {
        match (xlo, xro) {
            (Some(a), Some(b)) => {
                let s = mimc7_state(a, b, cv, MIMC7_ROUNDS as nat);
                crate::mimc7::lemma_add3_mod(s, b, a);
                crate::mimc7::lemma_add3_mod(s + b, a, b);
                assert(s + b + a + b == s + a + 2 * b);
            },
            _ => {},
        }
        let last = cs.constraints_view().len() - 1;
        assert(cs.constraints_view()[last] == output_shape(n));
        assert(cs.constraints_view() =~= cv0 + mimc7_shape(n, cv));
        assert(cs.assignment() =~= a0 + mimc7_witness(xlo, xro, cv));
    }
    output_value
}

} // verus!

verus! {

/// Where both inputs are known, the value the gadget assigns to its output
/// variable, and returns, is the native permutation of the same inputs.
pub proof fn lemma_circuit_output_is_native(xl: Scalar, xr: Scalar, constants: Seq<Scalar>)
    ensures
        mimc7_output(Some(xl.val()), Some(xr.val()), vals(constants)) == Some(
            mimc7_value(xl.val(), xr.val(), vals(constants)),
        ),
        mimc7_witness(Some(xl.val()), Some(xr.val()), vals(constants)).last() == Some(
            mimc7_value(xl.val(), xr.val(), vals(constants)),
        ),
{
}

/// Synthesizing the gadget into two systems of the same shape, one with
/// inputs and one without (or with other inputs), gives systems of the same
/// shape again: the same number of variables and the same constraints in the
/// same order. Only the assigned values can differ.
pub proof fn lemma_shape_independent_of_witness(
    before1: ConstraintSystem,
    after1: ConstraintSystem,
    xl1: Option<Scalar>,
    xr1: Option<Scalar>,
    before2: ConstraintSystem,
    after2: ConstraintSystem,
    xl2: Option<Scalar>,
    xr2: Option<Scalar>,
    constants: Seq<Scalar>,
)
    requires
        before1.num_vars() == before2.num_vars(),
        before1.constraints_view() == before2.constraints_view(),
        after1.num_vars() == before1.num_vars() + MIMC7_VARS,
        after1.constraints_view() == before1.constraints_view() + mimc7_shape(
            before1.num_vars() as int,
            vals(constants),
        ),
        after1.assignment() == before1.assignment() + mimc7_witness(opt_val(xl1), opt_val(xr1), vals(constants)),
        after2.num_vars() == before2.num_vars() + MIMC7_VARS,
        after2.constraints_view() == before2.constraints_view() + mimc7_shape(
            before2.num_vars() as int,
            vals(constants),
        ),
        after2.assignment() == before2.assignment() + mimc7_witness(opt_val(xl2), opt_val(xr2), vals(constants)),
    ensures
        after1.num_vars() == after2.num_vars(),
        after1.constraints_view() == after2.constraints_view(),
        after1.assignment().len() == after2.assignment().len(),
{
}

} // verus!

verus! {

proof fn lemma_rounds_len(n: int, cs: Seq<int>, xl: Option<int>, xr: Option<int>, k: nat)
    ensures
        rounds_shape(n, cs, k).len() == 5 * k,
        rounds_witness(xl, xr, cs, k).len() == 5 * k,
    decreases k,
{
    if k > 0 {
        lemma_rounds_len(n, cs, xl, xr, (k - 1) as nat);
    }
}

proof fn lemma_rounds_index(n: int, cs: Seq<int>, xl: Option<int>, xr: Option<int>, k: nat, i: int, j: int)
    requires
        0 <= i < k,
        0 <= j < 5,
    ensures
        rounds_shape(n, cs, k)[5 * i + j] == round_shape(n, cs, i)[j],
        rounds_witness(xl, xr, cs, k)[5 * i + j] == round_witness(xl, xr, cs, i)[j],
    decreases k,
{
    lemma_rounds_len(n, cs, xl, xr, (k - 1) as nat);
    if i < k - 1 {
        lemma_rounds_index(n, cs, xl, xr, (k - 1) as nat, i, j);
    }
}

pub open spec fn value_or_zero(o: Option<int>) -> int {
    match o {
        Some(x) => x,
        None => 0,
    }
}

proof fn lemma_lc_eval_terms(lc: Seq<TermView>, a: Seq<Option<int>>)
    requires
        1 <= lc.len() <= 4,
        forall|m: int| 0 <= m < lc.len() ==> (#[trigger] lc[m]).1 == 1 || m == 2,
    ensures
        lc.len() == 1 ==> lc_eval(lc, a) == value_or_zero(a[lc[0].0]),
        lc.len() == 2 ==> lc_eval(lc, a) == value_or_zero(a[lc[0].0]) + value_or_zero(a[lc[1].0]),
        lc.len() == 3 ==> lc_eval(lc, a) == value_or_zero(a[lc[0].0]) + value_or_zero(a[lc[1].0])
            + lc[2].1 * value_or_zero(a[lc[2].0]),
        lc.len() == 4 && lc[2].1 == 1 ==> lc_eval(lc, a) == value_or_zero(a[lc[0].0]) + value_or_zero(a[lc[1].0])
            + value_or_zero(a[lc[2].0]) + value_or_zero(a[lc[3].0]),
{
    let l1 = lc.subrange(0, 1);
    let l2 = lc.subrange(0, 2);
    let l3 = lc.subrange(0, 3);
    let v0 = value_or_zero(a[lc[0].0]);
    assert(l1.drop_last() =~= Seq::<TermView>::empty());
    assert(lc_eval(l1.drop_last(), a) == 0);
    assert(l1.last() == lc[0]);
    assert(lc_eval(l1, a) == v0);
    if lc.len() == 1 {
        assert(lc =~= l1);
    }
    if lc.len() >= 2 {
        assert(l2.drop_last() =~= l1);
        assert(l2.last() == lc[1]);
        assert(lc_eval(l2, a) == v0 + value_or_zero(a[lc[1].0]));
        if lc.len() == 2 {
            assert(lc =~= l2);
        }
    }
    if lc.len() >= 3 {
        assert(l3.drop_last() =~= l2);
        assert(l3.last() == lc[2]);
        assert(lc_eval(l3, a) == v0 + value_or_zero(a[lc[1].0]) + lc[2].1 * value_or_zero(a[lc[2].0]));
        if lc.len() == 3 {
            assert(lc =~= l3);
        } else {
            assert(lc.drop_last() =~= l3);
            assert(lc.last() == lc[3]);
        }
    }
}

/// Constraint `j` of round `i` holds under the full assignment.
proof fn lemma_round_satisfied(a0: Seq<Option<int>>, xl: int, xr: int, cs: Seq<int>, i: int, j: int)
    requires
        a0.len() >= 1,
        a0[0] == Some(1int),
        cs.len() == MIMC7_ROUNDS,
        0 <= i < MIMC7_ROUNDS,
        0 <= j < 5,
    ensures
        is_satisfied_by(
            round_shape(a0.len() as int, cs, i)[j],
            a0 + mimc7_witness(Some(xl), Some(xr), cs),
        ),
{
    let p = modulus();
    let n = a0.len() as int;
    let w = mimc7_witness(Some(xl), Some(xr), cs);
    let a = a0 + w;
    let rw = rounds_witness(Some(xl), Some(xr), cs, MIMC7_ROUNDS as nat);
    lemma_rounds_len(n, cs, Some(xl), Some(xr), MIMC7_ROUNDS as nat);
    assert(w.len() == 3 + 5 * MIMC7_ROUNDS + 1);
    let s = mimc7_state(xl, xr, cs, i as nat);
    let c = round_constant(cs, i);
    let x1 = (s + xr + c) % p;
    let x2 = (x1 * x1) % p;
    let x4 = (x2 * x2) % p;
    let x3 = (x1 * x2) % p;
    // The values the round reads.
    assert(a[0] == Some(1int));
    assert(a[xr_var(n)] == Some(xr));
    if i == 0 {
        assert(a[xl_var(n, i)] == Some(s));
    } else {
        lemma_rounds_index(n, cs, Some(xl), Some(xr), MIMC7_ROUNDS as nat, i - 1, 4);
        assert(a[xl_var(n, i)] == w[3 + 5 * (i - 1) + 4]);
        assert(a[xl_var(n, i)] == Some(s));
    }
    let x1v = x1_var(n, i);
    let rwi = round_witness(Some(xl), Some(xr), cs, i);
    assert forall|m: int| 0 <= m < 5 implies a[x1v + m] == #[trigger] rwi[m] by {
        lemma_rounds_index(n, cs, Some(xl), Some(xr), MIMC7_ROUNDS as nat, i, m);
        assert(a[x1v + m] == w[3 + 5 * i + m]);
    }
    assert(a[x1v] == Some(x1));
    assert(a[x1v + 1] == Some(x2));
    assert(a[x1v + 2] == Some(x4));
    assert(a[x1v + 3] == Some(x3));
    assert(a[x1v + 4] == Some(round_value(s, xr, c)));
    lemma_seventh_power(x1);
    vstd::arithmetic::div_mod::lemma_mod_twice(s + xr + c, p);
    vstd::arithmetic::div_mod::lemma_mod_twice(x1 * x1, p);
    vstd::arithmetic::div_mod::lemma_mod_twice(x2 * x2, p);
    vstd::arithmetic::div_mod::lemma_mod_twice(x1 * x2, p);
    vstd::arithmetic::div_mod::lemma_mod_twice(pow(x1, 7), p);
    let sh = round_shape(n, cs, i);
    lemma_lc_eval_terms(sh[j].0, a);
    lemma_lc_eval_terms(sh[j].1, a);
    lemma_lc_eval_terms(sh[j].2, a);
    if j == 0 {
        assert(lc_eval(sh[0].1, a) == 1);
        assert(lc_eval(sh[0].2, a) == x1);
        if i == 0 {
            assert(lc_eval(sh[0].0, a) == s + xr);
            assert(c == 0);
        } else {
            assert(sh[0].0.len() == 3);
            assert(sh[0].0[2] == (0int, cs[i]));
            assert(value_or_zero(a[0]) == 1);
            assert(cs[i] * 1 == c);
            assert(lc_eval(sh[0].0, a) == s + xr + c);
        }
        assert((s + xr + c) * 1 == s + xr + c);
        assert(is_satisfied_by(sh[0], a));
    } else if j == 1 {
        assert(lc_eval(sh[1].0, a) == x1);
        assert(lc_eval(sh[1].1, a) == x1);
        assert(lc_eval(sh[1].2, a) == x2);
        assert(is_satisfied_by(sh[1], a));
    } else if j == 2 {
        assert(lc_eval(sh[2].0, a) == x2);
        assert(lc_eval(sh[2].1, a) == x2);
        assert(lc_eval(sh[2].2, a) == x4);
        assert(is_satisfied_by(sh[2], a));
    } else if j == 3 {
        assert(lc_eval(sh[3].0, a) == x1);
        assert(lc_eval(sh[3].1, a) == x2);
        assert(lc_eval(sh[3].2, a) == x3);
        assert(is_satisfied_by(sh[3], a));
    } else {
        assert(lc_eval(sh[4].0, a) == x3);
        assert(lc_eval(sh[4].1, a) == x4);
        assert(lc_eval(sh[4].2, a) == pow(x1, 7) % p);
        assert(is_satisfied_by(sh[4], a));
    }
}

} // verus!

verus! {

/// Where both inputs are known, the values the gadget records satisfy every
/// constraint it enforces: the sum, square, fourth power, cube and seventh
/// power of each round agree, so each round's last variable holds
/// `(xl + xr + c)^7` as direct exponentiation gives it, and the output holds
/// the permutation's value.
pub proof fn lemma_witness_satisfies_constraints(a0: Seq<Option<int>>, xl: int, xr: int, cs: Seq<int>)
    requires
        a0.len() >= 1,
        a0[0] == Some(1int),
        cs.len() == MIMC7_ROUNDS,
    ensures
        forall|j: int|
            0 <= j < mimc7_shape(a0.len() as int, cs).len() ==> is_satisfied_by(
                #[trigger] mimc7_shape(a0.len() as int, cs)[j],
                a0 + mimc7_witness(Some(xl), Some(xr), cs),
            ),
{
    let p = modulus();
    let n = a0.len() as int;
    let w = mimc7_witness(Some(xl), Some(xr), cs);
    let a = a0 + w;
    let sh = mimc7_shape(n, cs);
    let rs = rounds_shape(n, cs, MIMC7_ROUNDS as nat);
    lemma_rounds_len(n, cs, Some(xl), Some(xr), MIMC7_ROUNDS as nat);
    assert(sh.len() == 5 * MIMC7_ROUNDS + 2);
    assert forall|j: int| 0 <= j < sh.len() implies is_satisfied_by(#[trigger] sh[j], a) by {
        if j == 0 {
            lemma_lc_eval_terms(sh[0].0, a);
            lemma_lc_eval_terms(sh[0].1, a);
            lemma_lc_eval_terms(sh[0].2, a);
            assert(a[n] == Some(xl));
            assert(a[n + 1] == Some(xl));
            assert(xl * 1 == xl);
        } else if j == sh.len() - 1 {
            let o = output_shape(n);
            assert(sh[j] == o);
            lemma_lc_eval_terms(o.0, a);
            lemma_lc_eval_terms(o.1, a);
            lemma_lc_eval_terms(o.2, a);
            let st = mimc7_state(xl, xr, cs, MIMC7_ROUNDS as nat);
            lemma_rounds_index(n, cs, Some(xl), Some(xr), MIMC7_ROUNDS as nat, MIMC7_ROUNDS - 1, 4);
            assert(a[xl_var(n, MIMC7_ROUNDS as int)] == w[3 + 5 * (MIMC7_ROUNDS - 1) + 4]);
            assert(a[xl_var(n, MIMC7_ROUNDS as int)] == Some(st));
            assert(a[xr_var(n)] == Some(xr));
            assert(a[n + 1] == Some(xl));
            assert(a[output_var(n)] == Some(mimc7_value(xl, xr, cs)));
            assert(lc_eval(o.0, a) == st + xr + xr + xl);
            assert((st + xr + xr + xl) * 1 == st + xl + 2 * xr);
            vstd::arithmetic::div_mod::lemma_mod_twice(st + xl + 2 * xr, p);
        } else {
            let i = (j - 1) / 5;
            let m = (j - 1) % 5;
            assert(sh[j] == rs[5 * i + m]);
            lemma_rounds_index(n, cs, Some(xl), Some(xr), MIMC7_ROUNDS as nat, i, m);
            lemma_round_satisfied(a0, xl, xr, cs, i, m);
        }
    }
}

} // verus!
