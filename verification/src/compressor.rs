//! The interface of a compression algorithm, and the one algorithm that is
//! always available: the identity, which leaves bytes as they are.

use vstd::prelude::*;
use vstd::slice::slice_to_vec;

verus! {

/// Name of the algorithm that leaves bytes as they are. A peer that names no
/// algorithm means this one.
pub const IDENTITY: &'static str = "identity";

/// Why a transform produced no output.
#[derive(Debug, PartialEq, Eq)]
pub enum TransformError {
    /// The algorithm refused its input or failed while working on it.
    Algorithm { message: String },
    /// The decompressed bytes are more than the `limit` that was set.
    TooLarge { limit: usize },
    /// The output buffer cannot grow by what the transform needs.
    Capacity,
}

/// A compression algorithm: a name that goes on the wire, and two bulk
/// operations on byte ranges.
///
/// Implementations live outside this crate, so nothing is assumed of what
/// they return: the callers in this crate are verified for every outcome.
/// What an implementation owes its users is a name without commas or
/// surrounding whitespace that never changes, a `decompress` that undoes
/// `compress` and fails on anything that `compress` cannot have produced, and
/// no state shared between calls.
pub trait Compressor: Send + Sync {
    /// The name under which peers ask for this algorithm.
    fn name(&self) -> &'static str;

    /// The compressed form of `input`.
    fn compress(&self, input: &[u8]) -> Result<Vec<u8>, TransformError>;

    /// The bytes whose compressed form is `input`. The caller takes no more
    /// than `limit` bytes: an implementation may stop with an error as soon
    /// as its output grows beyond that.
    fn decompress(&self, input: &[u8], limit: usize) -> Result<Vec<u8>, TransformError>;
}

/// The algorithm that copies its input. It never fails.
#[derive(Debug, Clone, Copy)]
pub struct IdentityCompressor {}

impl Compressor for IdentityCompressor {
    fn name(&self) -> (name: &'static str)
        ensures
            name@ == IDENTITY@,
    {
        IDENTITY
    }

    fn compress(&self, input: &[u8]) -> (result: Result<Vec<u8>, TransformError>)
        ensures
            result matches Ok(bytes) && bytes@ == input@,
    {
        Ok(slice_to_vec(input))
    }

    fn decompress(&self, input: &[u8], _limit: usize) -> (result: Result<Vec<u8>, TransformError>)
        ensures
            result matches Ok(bytes) && bytes@ == input@,
    {
        Ok(slice_to_vec(input))
    }
}

} // verus!
