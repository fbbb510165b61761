use cbor::archive::{prepare, ExportError};
use cbor::circuit::{Circuit, Constraint, Term};
use nova_snark::provider::bn256_grumpkin::bn256::Scalar;

fn term(wire: usize) -> Term {
    Term { wire, coeff: Scalar::from(1u64) }
}

/// One step `out = in * in` over wires: the constant one, the public output, the
/// public input, and one private wire.
fn square(num_inputs: usize, wire: usize) -> Circuit {
    Circuit {
        num_inputs,
        num_aux: 1,
        num_variables: 4,
        constraints: vec![Constraint { a: vec![term(2)], b: vec![term(wire)], c: vec![term(1)] }],
    }
}

#[test]
fn well_formed_circuit_is_accepted() {
    assert!(square(3, 2).is_well_formed());
    assert!(square(3, 3).is_well_formed());
    assert!(square(3, 0).is_well_formed());
}

#[test]
fn wire_past_the_last_is_refused() {
    assert!(!square(3, 4).is_well_formed());
}

#[test]
fn even_public_wire_count_is_refused() {
    assert!(!square(2, 1).is_well_formed());
    assert!(!square(0, 1).is_well_formed());
}

#[test]
fn circuit_without_constraints_is_well_formed() {
    let c = Circuit { num_inputs: 1, num_aux: 0, num_variables: 1, constraints: vec![] };
    assert!(c.is_well_formed());
}

#[test]
fn prepare_refuses_malformed_circuit() {
    assert!(matches!(prepare(square(3, 4)), Err(ExportError::Load)));
    assert!(matches!(prepare(square(4, 1)), Err(ExportError::Load)));
}
