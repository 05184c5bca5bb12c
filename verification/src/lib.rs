//! Parameter transform and verification for the second phase of a Groth16
//! setup ceremony over BLS12-377.
//!
//! The ceremony starts from the program of a circuit and the output of the
//! first phase (`MPCParameters::new`). Contributors scale the delta of the
//! proving key by a secret of their own (`contribute`), and anybody can see
//! that parameters came from earlier ones by contributions alone
//! (`verify`). Large keys are split into chunks (`new_chunked`, `combine`)
//! or worked on in their written form, a batch of elements at a time
//! (`chunked_groth16`).
//!
//! Group elements and scalars are held as their canonical encodings; the
//! arithmetic on them is that of `snarkvm_curves`, and what is taken on trust
//! about it is stated in `curve` and `hash`.

// Each module comes after those that it builds on.
pub mod bytes;
pub mod error;
pub mod curve;
pub mod point;
pub mod hash;
pub mod codec;
pub mod keypair;
pub mod key;
pub mod polynomial;
pub mod phase1;
pub mod qap;
pub mod parameters;
pub mod chunks;
pub mod contribution;
pub mod verification;
pub mod serialization;
pub mod chunked_groth16;
pub mod transform;

use vstd::prelude::*;

verus! {

/// Whether group elements are written in their short or their long form.
#[derive(Clone, Copy, Debug, PartialEq, Eq, Structural)]
pub enum UseCompression {
    Yes,
    No,
}

} // verus!
