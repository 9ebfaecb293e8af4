//! Turns an ordered collection of still images into one animated GIF.
//!
//! The crate decides which image files take part in a run and in what
//! order, hands them to the `engiffen` encoder, and folds every failure
//! into a single error taxonomy.  Selection, ordering and error routing
//! are verified; decoding and encoding are delegated to `engiffen`
//! behind trusted wrappers.

pub mod names;
pub mod errors;
pub mod source;
pub mod frames;
pub mod encode;
pub mod report;
pub mod pipeline;
