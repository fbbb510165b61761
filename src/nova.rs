//! The calls into nova-scotia, nova-snark and serde_cbor that the library makes.
//!
//! Nova's generic types are bounded by its own traits, which Verus cannot read, so the
//! public parameters are held in an opaque struct of this module, fixed to the
//! bn256/grumpkin curve cycle.
use vstd::prelude::*;

use nova_scotia::circom::circuit::{CircomCircuit, R1CS};
use nova_snark::provider::bn256_grumpkin::{bn256, grumpkin};
use nova_snark::traits::circuit::TrivialTestCircuit;
use nova_snark::PublicParams;

use crate::circuit::{Circuit, CircuitView, Term};

verus! {

/// The primary curve of the cycle.
pub type G1 = bn256::Point;

/// The secondary curve of the cycle.
pub type G2 = grumpkin::Point;

/// The scalar field of the primary curve, in which constraints are written.
pub type Fr = bn256::Scalar;

#[verifier::external_type_specification]
#[verifier::external_body]
pub struct ExFr(bn256::Scalar);

/// Public parameters for a circom circuit folded over the bn256/grumpkin cycle.
pub type Params = PublicParams<
    G1,
    G2,
    CircomCircuit<bn256::Scalar>,
    TrivialTestCircuit<grumpkin::Scalar>,
>;

/// Nova's public parameters, opaque to the library's logic.
#[verifier::external_body]
pub struct ParamsBox {
    params: Params,
}

/// Public parameters together with the circuit they were built from.
pub struct Parameters {
    pub(crate) inner: ParamsBox,
    pub(crate) source: Ghost<CircuitView>,
}

/// The CBOR encoding of the public parameters of circuit `c`.
pub uninterp spec fn params_cbor(c: CircuitView) -> Seq<u8>;

/// The constraint counts, primary then secondary, of the public parameters of `c`.
pub uninterp spec fn params_num_constraints(c: CircuitView) -> (usize, usize);

/// The variable counts, primary then secondary, of the public parameters of `c`.
pub uninterp spec fn params_num_variables(c: CircuitView) -> (usize, usize);

/// Relies on nova_scotia::create_public_params: it runs Nova's setup over the
/// circuit as primary step circuit and a trivial secondary circuit. Synthesis
/// subtracts one from `num_inputs`, indexes the public and private wires by the
/// constraints' wire numbers, and reads half of the public wires from the step
/// inputs, so the circuit must be well formed.
#[verifier::external_body]
pub(crate) fn create_public_params(c: Circuit) -> (r: Parameters)
    requires
        c@.wf(),
    ensures
        r.source@ == c@,
{
    let source = Ghost(c@);
    let lc = |ts: Vec<Term>| ts.into_iter().map(|t| (t.wire, t.coeff)).collect::<Vec<_>>();
    let constraints = c.constraints.into_iter().map(|k| (lc(k.a), lc(k.b), lc(k.c))).collect();
    let r1cs = R1CS {
        num_inputs: c.num_inputs,
        num_aux: c.num_aux,
        num_variables: c.num_variables,
        constraints,
    };
    let params = nova_scotia::create_public_params::<G1, G2>(r1cs);
    Parameters { inner: ParamsBox { params }, source }
}

/// Relies on serde_cbor::to_vec: the CBOR encoding of the parameters, which depends
/// on them alone. Writing into a `Vec` never fails and the parameters hold no
/// 128-bit integer, the encoder's only other error, so the encoding always comes
/// back; the parameters derive `Serialize` as a struct, which the encoder opens with
/// a map header, so it is never empty.
#[verifier::external_body]
pub(crate) fn encode_cbor(pp: &Parameters) -> (r: Option<Vec<u8>>)
    ensures
        r is Some,
        r->Some_0@ == params_cbor(pp.source@),
        r->Some_0@.len() > 0,
{
    serde_cbor::to_vec(&pp.inner.params).ok()
}

/// Relies on nova_snark's PublicParams::num_constraints: the constraint counts of the
/// primary and secondary step circuits, in that order.
#[verifier::external_body]
pub(crate) fn num_constraints(pp: &Parameters) -> (r: (usize, usize))
    ensures
        r == params_num_constraints(pp.source@),
{
    pp.inner.params.num_constraints()
}

/// Relies on nova_snark's PublicParams::num_variables: the variable counts of the
/// primary and secondary step circuits, in that order.
#[verifier::external_body]
pub(crate) fn num_variables(pp: &Parameters) -> (r: (usize, usize))
    ensures
        r == params_num_variables(pp.source@),
{
    pp.inner.params.num_variables()
}

} // verus!
