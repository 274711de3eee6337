//! Semantics-preserving encoders and their metadata.
pub mod categorical;
pub mod derivation;
pub mod error;
pub mod metadata;
pub mod numeric;
pub mod record;
