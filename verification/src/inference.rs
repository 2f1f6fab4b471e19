//! Shape checks on the outputs of the streaming model.
//!
//! The model maps `feat [1, T, 80]` and `caches_in [8, 1, 128, 19]` to
//! `probs [1, T, 1]` and `caches_out [8, 1, 128, 19]`.

use vstd::prelude::*;

verus! {

/// Number of cache slots (one per DFSMN block).
pub const CACHE_BLOCKS: usize = 8;

/// Cache channel dimension.
pub const CACHE_CHANNELS: usize = 128;

/// Cache time dimension.
pub const CACHE_TIME: usize = 19;

/// Total number of cache entries: `8 * 1 * 128 * 19`.
pub const CACHE_TOTAL: usize = 19_456;

/// An output tensor whose shape is not the one the model contract fixes.
#[derive(Debug)]
pub struct ShapeMismatch {
    /// Name of the offending output tensor.
    pub tensor: &'static str,
    /// The shape the runtime reported.
    pub shape: Vec<i64>,
}

/// The shape of `probs` for `frames` input frames.
pub open spec fn probs_shape(frames: usize) -> Seq<i64> {
    seq![1i64, frames as i64, 1i64]
}

/// The shape of `caches_out`.
pub open spec fn caches_shape() -> Seq<i64> {
    seq![8i64, 1i64, 128i64, 19i64]
}

/// `Ok` exactly when `actual` equals `expected`; otherwise the error names
/// `tensor` and carries the actual shape.
pub fn validate_shape(tensor: &'static str, actual: &[i64], expected: &[i64]) -> (r: Result<
    (),
    ShapeMismatch,
>)
    ensures
        r is Ok <==> actual@ == expected@,
        r matches Err(e) ==> e.tensor == tensor && e.shape@ == actual@,
{
    let mut same = actual.len() == expected.len();
    if same {
        let mut i: usize = 0;
        while i < actual.len() && actual[i] == expected[i]
            invariant
                actual@.len() == expected@.len(),
                0 <= i <= actual@.len(),
                forall|j: int| 0 <= j < i ==> actual@[j] == expected@[j],
            decreases actual@.len() - i,
        {
            i = i + 1;
        }
        if i < actual.len() {
            same = false;
        } else {
            assert(actual@ =~= expected@);
        }
    }
    if same {
        Ok(())
    } else {
        let mut shape: Vec<i64> = Vec::with_capacity(actual.len());
        let mut k: usize = 0;
        while k < actual.len()
            invariant
                0 <= k <= actual@.len(),
                shape@ == actual@.take(k as int),
            decreases actual@.len() - k,
        {
            shape.push(actual[k]);
            k = k + 1;
            assert(actual@.take(k as int) =~= actual@.take(k - 1).push(actual@[k - 1]));
        }
        assert(actual@.take(actual@.len() as int) =~= actual@);
        Err(ShapeMismatch { tensor, shape })
    }
}

/// Check the shape of `probs` after an inference over `frames` frames:
/// `Ok` exactly when it is `[1, frames, 1]`, otherwise an error naming
/// `probs` and carrying the actual shape.
pub fn validate_probs_shape(frames: usize, actual: &[i64]) -> (r: Result<(), ShapeMismatch>)
    requires
        frames <= i64::MAX,
    ensures
        r is Ok <==> actual@ == probs_shape(frames),
        r matches Err(e) ==> e.tensor@ == "probs"@ && e.shape@ == actual@,
{
    let expected: [i64; 3] = [1, frames as i64, 1];
    assert(expected@ =~= probs_shape(frames));
    validate_shape("probs", actual, expected.as_slice())
}

/// Check the shape of `caches_out`: `Ok` exactly when it is
/// `[8, 1, 128, 19]`, otherwise an error naming `caches_out` and carrying
/// the actual shape.
pub fn validate_caches_shape(actual: &[i64]) -> (r: Result<(), ShapeMismatch>)
    ensures
        r is Ok <==> actual@ == caches_shape(),
        r matches Err(e) ==> e.tensor@ == "caches_out"@ && e.shape@ == actual@,
{
    let expected: [i64; 4] = [8, 1, 128, 19];
    assert(expected@ =~= caches_shape());
    validate_shape("caches_out", actual, expected.as_slice())
}

} // verus!
