//! Public parameters turned into an archive: its bytes and the circuit counts.
use vstd::prelude::*;

use crate::circuit::{Circuit, CircuitView};
use crate::nova::{
    create_public_params, encode_cbor, num_constraints, num_variables, params_cbor,
    params_num_constraints, params_num_variables,
};

verus! {

/// Why an export did not complete.
#[derive(Clone, Copy, Debug, PartialEq, Eq, Structural)]
pub enum ExportError {
    /// The circuit description is missing, could not be read, or is not well formed.
    Load,
    /// The temporary archive file could not be created or written.
    Write,
    /// The finished archive could not be moved onto the output path.
    Commit,
    /// An event arrived that does not answer the pending action.
    OutOfOrder,
}

/// Constraint and variable counts per step of the two folded circuits.
#[derive(Clone, Copy, Debug, PartialEq, Eq, Structural)]
pub struct Counts {
    pub primary_constraints: usize,
    pub secondary_constraints: usize,
    pub primary_variables: usize,
    pub secondary_variables: usize,
}

impl Counts {
    /// The counts in the order in which they are reported.
    pub open spec fn report_seq(self) -> Seq<usize> {
        seq![
            self.primary_constraints,
            self.secondary_constraints,
            self.primary_variables,
            self.secondary_variables,
        ]
    }

    /// The four counts as reported: primary constraints, secondary constraints,
    /// primary variables, secondary variables.
    pub fn report_order(&self) -> (r: Vec<usize>)
        ensures
            r@ == self.report_seq(),
    {
        let mut r: Vec<usize> = Vec::new();
        r.push(self.primary_constraints);
        r.push(self.secondary_constraints);
        r.push(self.primary_variables);
        r.push(self.secondary_variables);
        r
    }
}

/// The encoded parameters together with the counts read from them.
pub struct Archive {
    pub bytes: Vec<u8>,
    pub counts: Counts,
}

impl View for Archive {
    type V = (Seq<u8>, Counts);

    open spec fn view(&self) -> (Seq<u8>, Counts) {
        (self.bytes@, self.counts)
    }
}

/// The counts read from the public parameters of circuit `c`.
pub open spec fn params_counts(c: CircuitView) -> Counts {
    Counts {
        primary_constraints: params_num_constraints(c).0,
        secondary_constraints: params_num_constraints(c).1,
        primary_variables: params_num_variables(c).0,
        secondary_variables: params_num_variables(c).1,
    }
}

/// Builds the public parameters of `circuit`, reads their counts and encodes them.
/// A circuit that is not well formed is refused with `Load`; any other yields its
/// archive, which is never empty.
pub fn prepare(circuit: Circuit) -> (r: Result<Archive, ExportError>)
    ensures
        r is Ok <==> circuit@.wf(),
        r matches Ok(a) ==> {
            &&& a.bytes@ == params_cbor(circuit@)
            &&& a.bytes@.len() > 0
            &&& a.counts == params_counts(circuit@)
        },
        r matches Err(e) ==> e == ExportError::Load,
{
    if !circuit.is_well_formed() {
        return Err(ExportError::Load);
    }
    let pp = create_public_params(circuit);
    let (primary_constraints, secondary_constraints) = num_constraints(&pp);
    let (primary_variables, secondary_variables) = num_variables(&pp);
    let counts = Counts {
        primary_constraints,
        secondary_constraints,
        primary_variables,
        secondary_variables,
    };
    let bytes = encode_cbor(&pp).unwrap();
    Ok(Archive { bytes, counts })
}

} // verus!
