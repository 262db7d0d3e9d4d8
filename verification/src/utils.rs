use vstd::prelude::*;

verus! {

/// Relies on rand::random::<bool>: draws one boolean from the thread-local
/// generator. Nothing is promised about which value comes back.
#[verifier::external_body]
pub(crate) fn random_bool() -> bool {
    rand::random()
}

/// Relies on rand::thread_rng and rand::Rng::gen_range: draws one value from
/// the half-open range starting at zero, so the result is below three.
#[verifier::external_body]
fn random_below_three() -> (r: u8)
    ensures
        r < 3,
{
    rand::Rng::gen_range(&mut rand::thread_rng(), 0..3u8)
}

/// Picks one of the two arguments, each with probability one half.
pub fn rand_select<T>(a: T, b: T) -> (r: T)
    ensures
        r == a || r == b,
{
    if random_bool() {
        a
    } else {
        b
    }
}

/// Picks one of the three arguments, each with probability one third.
pub fn rand_select3<T>(a: T, b: T, c: T) -> (r: T)
    ensures
        r == a || r == b || r == c,
{
    match random_below_three() {
        0 => a,
        1 => b,
        _ => c,
    }
}

} // verus!
