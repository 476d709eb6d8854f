//! A recording rank-1 constraint system: allocated variables with optional
//! assigned values, and constraints `a * b = c` over linear combinations.
use vstd::prelude::*;
use crate::field::{Scalar, modulus};

verus! {

/// What went wrong during synthesis.
#[derive(Clone, Copy, Debug, PartialEq, Eq)]
pub enum SynthesisError {
    /// A value was needed to record a witness, and none was supplied.
    AssignmentMissing,
}

/// Resolution of a value that may be absent, as a witness during synthesis.
pub trait Assignment<T> {
    spec fn assigned(&self) -> Option<T>;

    /// The value, or `AssignmentMissing` where there is none.
    fn get(&self) -> (r: Result<&T, SynthesisError>)
        ensures
            match self.assigned() {
                Some(v) => r matches Ok(x) && *x == v,
                None => r == Err::<&T, SynthesisError>(SynthesisError::AssignmentMissing),
            },
    ;
}

impl<T> Assignment<T> for Option<T> {
    open spec fn assigned(&self) -> Option<T> {
        *self
    }

    fn get(&self) -> (r: Result<&T, SynthesisError>) {
        match self {
            Some(v) => Ok(v),
            None => Err(SynthesisError::AssignmentMissing),
        }
    }
}

/// A variable of a constraint system, by its position. Position 0 is the
/// constant one.
#[derive(Clone, Copy, Debug, PartialEq, Eq)]
pub struct Variable {
    pub index: usize,
}

/// A sum of variables, each scaled by a coefficient.
pub struct LinearCombination {
    pub terms: Vec<(Variable, Scalar)>,
}

/// A term as the variable's position and the coefficient's value.
pub type TermView = (int, int);

/// A constraint as its three linear combinations.
pub type ConstraintView = (Seq<TermView>, Seq<TermView>, Seq<TermView>);

pub open spec fn term_view(t: (Variable, Scalar)) -> TermView {
    (t.0.index as int, t.1.val())
}

pub open spec fn opt_val(o: Option<Scalar>) -> Option<int> {
    match o {
        Some(s) => Some(s.val()),
        None => None,
    }
}

/// Every variable that `lc` names is below `n`.
pub open spec fn vars_below(lc: Seq<TermView>, n: int) -> bool {
    forall|i: int| 0 <= i < lc.len() ==> 0 <= #[trigger] lc[i].0 < n
}

/// The value of a linear combination under an assignment, an unassigned
/// variable counting as 0.
pub open spec fn lc_eval(lc: Seq<TermView>, a: Seq<Option<int>>) -> int
    decreases lc.len(),
{
    if lc.len() == 0 {
        0
    } else {
        let t = lc.last();
        lc_eval(lc.drop_last(), a) + t.1 * match a[t.0] {
            Some(x) => x,
            None => 0,
        }
    }
}

/// `a * b = c` holds in the native field under the assignment.
pub open spec fn is_satisfied_by(c: ConstraintView, a: Seq<Option<int>>) -> bool {
    (lc_eval(c.0, a) * lc_eval(c.1, a)) % modulus() == lc_eval(c.2, a) % modulus()
}

impl LinearCombination {
    pub open spec fn view(&self) -> Seq<TermView> {
        self.terms@.map_values(|t: (Variable, Scalar)| term_view(t))
    }

    /// The combination with no terms.
    pub fn new() -> (r: LinearCombination)
        ensures
            r.view() == Seq::<TermView>::empty(),
    {
        let r = LinearCombination { terms: Vec::new() };
        assert(r.view() =~= Seq::<TermView>::empty());
        r
    }

    /// Adds `coeff * v` as a further term.
    pub fn push_term(&mut self, v: Variable, coeff: Scalar)
        ensures
            final(self).view() == old(self).view().push((v.index as int, coeff.val())),
    {
        self.terms.push((v, coeff));
        assert(final(self).view() =~= old(self).view().push((v.index as int, coeff.val())));
    }
}

/// One constraint `a * b = c`.
pub struct Constraint {
    pub a: LinearCombination,
    pub b: LinearCombination,
    pub c: LinearCombination,
}

impl Constraint {
    pub open spec fn view(&self) -> ConstraintView {
        (self.a.view(), self.b.view(), self.c.view())
    }
}

/// The variables allocated so far, with their values where known, and the
/// constraints enforced so far, in order.
pub struct ConstraintSystem {
    pub values: Vec<Option<Scalar>>,
    pub constraints: Vec<Constraint>,
}

impl ConstraintSystem {
    /// The assigned values, position by position.
    pub open spec fn assignment(&self) -> Seq<Option<int>> {
        self.values@.map_values(|o: Option<Scalar>| opt_val(o))
    }

    /// The number of variables.
    pub open spec fn num_vars(&self) -> nat {
        self.values@.len()
    }

    /// The constraints, in the order they were enforced.
    pub open spec fn constraints_view(&self) -> Seq<ConstraintView> {
        self.constraints@.map_values(|c: Constraint| c.view())
    }

    /// The constant one holds position 0, and every constraint names
    /// allocated variables only.
    pub open spec fn wf(&self) -> bool {
        &&& self.values@.len() >= 1
        &&& self.assignment()[0] == Some(1int)
        &&& forall|i: int|
            0 <= i < self.constraints@.len() ==> {
                let c = #[trigger] self.constraints_view()[i];
                vars_below(c.0, self.num_vars() as int) && vars_below(c.1, self.num_vars() as int)
                    && vars_below(c.2, self.num_vars() as int)
            }
    }

    /// A system that holds only the constant one.
    pub fn new() -> (r: ConstraintSystem)
        ensures
            r.wf(),
            r.assignment() == seq![Some(1int)],
            r.constraints_view() == Seq::<ConstraintView>::empty(),
    {
        let mut values: Vec<Option<Scalar>> = Vec::new();
        values.push(Some(Scalar::one()));
        let r = ConstraintSystem { values, constraints: Vec::new() };
        assert(r.assignment() =~= seq![Some(1int)]);
        assert(r.constraints_view() =~= Seq::<ConstraintView>::empty());
        r
    }

    /// The constant one.
    pub fn one() -> (r: Variable)
        ensures
            r.index == 0,
    {
        Variable { index: 0 }
    }

    /// Allocates a variable with the given value, if any.
    pub fn allocate(&mut self, value: Option<Scalar>) -> (r: Variable)
        requires
            old(self).wf(),
            old(self).num_vars() < usize::MAX,
        ensures
            final(self).wf(),
            r.index == old(self).num_vars(),
            final(self).num_vars() == old(self).num_vars() + 1,
            final(self).assignment() == old(self).assignment().push(opt_val(value)),
            final(self).constraints_view() == old(self).constraints_view(),
    {
        let r = Variable { index: self.values.len() };
        self.values.push(value);
        assert(final(self).assignment() =~= old(self).assignment().push(opt_val(value)));
        assert(final(self).constraints_view() =~= old(self).constraints_view());
        r
    }

    /// Records the constraint `a * b = c`.
    pub fn enforce(&mut self, a: LinearCombination, b: LinearCombination, c: LinearCombination)
        requires
            old(self).wf(),
            vars_below(a.view(), old(self).num_vars() as int),
            vars_below(b.view(), old(self).num_vars() as int),
            vars_below(c.view(), old(self).num_vars() as int),
        ensures
            final(self).wf(),
            final(self).num_vars() == old(self).num_vars(),
            final(self).assignment() == old(self).assignment(),
            final(self).constraints_view() == old(self).constraints_view().push(
                (a.view(), b.view(), c.view()),
            ),
    {
        let ghost v = (a.view(), b.view(), c.view());
        self.constraints.push(Constraint { a, b, c });
        assert(final(self).assignment() =~= old(self).assignment());
        assert(final(self).constraints_view() =~= old(self).constraints_view().push(v));
    }
}

} // verus!
