use vstd::prelude::*;
use rand::Rng;

verus! {

/// Relies on `rand::thread_rng` and `rand::Rng::gen_range` over `min..max`:
/// a value drawn from the half-open range, which must not be empty.
#[verifier::external_body]
fn draw_int_below(min: i32, max: i32) -> (r: i32)
    requires
        min < max,
    ensures
        min <= r < max,
{
    rand::thread_rng().gen_range(min..max)
}

/// A random integer in `[min, max)`.
pub fn random_int_in_range(min: i32, max: i32) -> (r: i32)
    requires
        min < max,
    ensures
        min <= r < max,
{
    draw_int_below(min, max)
}

} // verus!
