//! Sizing a generated data set and splitting it into a training part and a
//! testing part.

use vstd::prelude::*;

verus! {

/// The largest data set that is ever generated; larger requests are capped.
pub const MAX_DATA_SET_SIZE: usize = 1_000_000_000;

/// Number of samples that train the model: four fifths of the set, rounded
/// down.
pub open spec fn training_count(size: nat) -> nat {
    (size * 80) / 100
}

/// Number of samples held back for testing: whatever is not used to train.
pub open spec fn testing_count(size: nat) -> nat {
    (size - training_count(size)) as nat
}

/// The size that is generated for a request: `None` for an empty request,
/// otherwise the request capped at `MAX_DATA_SET_SIZE`.
pub open spec fn accepted_size(requested: nat) -> Option<nat> {
    if requested == 0 {
        None
    } else if requested > MAX_DATA_SET_SIZE {
        Some(MAX_DATA_SET_SIZE as nat)
    } else {
        Some(requested)
    }
}

/// The training part is four fifths of the whole, rounded down to a whole
/// sample, and the two parts together are the whole.
pub proof fn lemma_split_is_four_fifths(size: nat)
    ensures
        5 * training_count(size) <= 4 * size < 5 * training_count(size) + 5,
        training_count(size) + testing_count(size) == size,
        size > 0 ==> testing_count(size) > 0,
{
}

/// Validates a requested data set size: rejects zero and caps the rest.
pub fn clamp_size(requested: usize) -> (r: Option<usize>)
    ensures
        r is None <==> requested == 0,
        r is Some ==> accepted_size(requested as nat) == Some(r.unwrap() as nat),
        r is Some ==> 0 < r.unwrap() <= MAX_DATA_SET_SIZE,
{
    if requested == 0 {
        None
    } else if requested > MAX_DATA_SET_SIZE {
        Some(MAX_DATA_SET_SIZE)
    } else {
        Some(requested)
    }
}

/// Splits `size` samples into `(training, testing)` counts.
pub fn split_sizes(size: usize) -> (r: (usize, usize))
    ensures
        r.0 == training_count(size as nat),
        r.1 == testing_count(size as nat),
        r.0 + r.1 == size,
{
    let fifths: usize = size / 5;
    let rest: usize = size % 5;
    let training: usize = fifths * 4 + rest * 4 / 5;
    (training, size - training)
}

} // verus!
