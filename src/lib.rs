//! Builds Nova public parameters for a circom circuit and exports them as a CBOR
//! archive, written to a temporary file and renamed into place only once complete.
use vstd::prelude::*;

pub mod archive;
pub mod circuit;
pub mod export;
pub mod nova;

verus! {

} // verus!
