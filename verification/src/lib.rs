//! Streaming capture of trajectory samples for a simulated N-body system.
//!
//! The simulation itself (forces, integrators, the stepping loop) is an
//! external collaborator; this crate owns the capture pipeline around it:
//! a per-object sample buffer ([`record::Record`]), a chunked dataset
//! writer ([`store::Store`]), a rate-gated progress reporter
//! ([`progress::ProgressBar`]), the pluggable flush policy
//! ([`effect`]), and the consumer side of the producer/consumer loop
//! ([`pipeline`]).
//!
//! Scalar measurements are IEEE-754 double-precision values carried as
//! their 64-bit patterns, so that every buffering and chunking step is
//! stated and checked over plain integers; the one arithmetic operation
//! the pipeline performs on them, the center-of-mass offset, lives in
//! [`ieee`].

pub mod effect;
pub mod ieee;
pub mod pipeline;
pub mod progress;
pub mod record;
pub mod store;
pub mod text;
