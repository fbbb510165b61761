//! A rank-1 constraint system as the library holds it: the counts of public inputs and
//! private wires, and each constraint as three linear combinations of wires.
use vstd::prelude::*;

use crate::nova::Fr;

verus! {

/// One term of a linear combination: a wire and its coefficient. Wire 0 is the
/// constant one; wires `1 .. num_inputs` are public, the rest private.
pub struct Term {
    pub wire: usize,
    pub coeff: Fr,
}

/// A constraint `a * b = c` over linear combinations of wires.
pub struct Constraint {
    pub a: Vec<Term>,
    pub b: Vec<Term>,
    pub c: Vec<Term>,
}

/// A circuit: `num_inputs` counts the constant wire and the public outputs and
/// inputs, `num_aux` the private wires.
pub struct Circuit {
    pub num_inputs: usize,
    pub num_aux: usize,
    pub num_variables: usize,
    pub constraints: Vec<Constraint>,
}

/// A constraint, for contracts.
pub struct ConstraintView {
    pub a: Seq<Term>,
    pub b: Seq<Term>,
    pub c: Seq<Term>,
}

/// A circuit, for contracts.
pub struct CircuitView {
    pub num_inputs: nat,
    pub num_aux: nat,
    pub num_variables: nat,
    pub constraints: Seq<ConstraintView>,
}

impl View for Constraint {
    type V = ConstraintView;

    open spec fn view(&self) -> ConstraintView {
        ConstraintView { a: self.a@, b: self.b@, c: self.c@ }
    }
}

impl View for Circuit {
    type V = CircuitView;

    open spec fn view(&self) -> CircuitView {
        CircuitView {
            num_inputs: self.num_inputs as nat,
            num_aux: self.num_aux as nat,
            num_variables: self.num_variables as nat,
            constraints: self.constraints@.map_values(|k: Constraint| k@),
        }
    }
}

/// Every wire of `lc` is one of the first `bound` wires.
pub open spec fn lc_within(lc: Seq<Term>, bound: int) -> bool {
    forall|j: int| 0 <= j < lc.len() ==> #[trigger] lc[j].wire < bound
}

impl ConstraintView {
    pub open spec fn within(self, bound: int) -> bool {
        lc_within(self.a, bound) && lc_within(self.b, bound) && lc_within(self.c, bound)
    }
}

impl CircuitView {
    /// The circuit can be folded: the public wires after the constant one split
    /// evenly into outputs and inputs, so `num_inputs` is odd, and every constraint
    /// names only the constant, public and private wires that exist.
    pub open spec fn wf(self) -> bool {
        &&& self.num_inputs % 2 == 1
        &&& forall|i: int|
            0 <= i < self.constraints.len() ==> #[trigger] self.constraints[i].within(
                (self.num_inputs + self.num_aux) as int,
            )
    }
}

/// Whether every wire of `lc` is below `num_inputs + num_aux`.
fn lc_is_within(lc: &Vec<Term>, num_inputs: usize, num_aux: usize) -> (r: bool)
    ensures
        r == lc_within(lc@, num_inputs + num_aux),
{
    let mut j: usize = 0;
    while j < lc.len()
        invariant
            j <= lc.len(),
            lc_within(lc@.take(j as int), num_inputs + num_aux),
        decreases lc.len() - j,
    {
        let w = lc[j].wire;
        if w >= num_inputs && w - num_inputs >= num_aux {
            assert(!lc_within(lc@, num_inputs + num_aux) ) by {
                assert(lc@[j as int].wire >= num_inputs + num_aux);
            }
            return false;
        }
        assert(lc@.take(j as int + 1)[j as int] == lc@[j as int]);
        j += 1;
    }
    assert(lc@.take(j as int) =~= lc@);
    true
}

impl Circuit {
    /// Whether the circuit is well formed (see `CircuitView::wf`).
    pub fn is_well_formed(&self) -> (r: bool)
        ensures
            r == self@.wf(),
    {
        if self.num_inputs % 2 != 1 {
            return false;
        }
        let bound: Ghost<int> = Ghost(self.num_inputs + self.num_aux);
        let mut i: usize = 0;
        while i < self.constraints.len()
            invariant
                i <= self.constraints.len(),
                bound@ == self@.num_inputs + self@.num_aux,
                forall|k: int| 0 <= k < i ==> #[trigger] self@.constraints[k].within(bound@),
            decreases self.constraints.len() - i,
        {
            let k = &self.constraints[i];
            if !lc_is_within(&k.a, self.num_inputs, self.num_aux)
                || !lc_is_within(&k.b, self.num_inputs, self.num_aux)
                || !lc_is_within(&k.c, self.num_inputs, self.num_aux) {
                assert(!self@.constraints[i as int].within(bound@));
                return false;
            }
            assert(self@.constraints[i as int].within(bound@));
            i += 1;
        }
        true
    }
}

} // verus!
