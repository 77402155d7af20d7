//! A windowed Pedersen hash and commitment built over visibility-tagged
//! circuit values, together with a static predictor of the constraint cost
//! and output visibility that a hash or commit call incurs.
//!
//! Every value that flows through the engine carries a visibility mode
//! (constant, public, or private).  The engine both computes the group
//! element and tallies the constraints the computation emits; the predictor
//! reproduces that tally and the output visibility from the visibilities
//! alone, without running the engine.

pub mod count;
pub mod error;
pub mod group;
pub mod homomorphism;
pub mod integer;
pub mod metadata;
pub mod mode;
pub mod pedersen;
pub mod types;

pub use count::Count;
pub use error::PedersenError;
pub use mode::Mode;
pub use pedersen::Pedersen;
