//! Fractal Semantic Encoding runtime: archive metadata, codecs and maintenance policy.
use vstd::prelude::*;

pub mod bytes;
pub mod compact;
pub mod cursor;
pub mod data;
pub mod id_sets;
pub mod math;
pub mod encoding;
pub mod persistence;
pub mod text;

verus! {

} // verus!
