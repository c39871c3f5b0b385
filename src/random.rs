//! Draws from the thread-local generator of `rand`. Nothing is known of a
//! drawn value beyond its range and length.
use rand::{Rng, RngCore};
use vstd::prelude::*;

verus! {

/// Relies on `rand::Rng::gen_range(0..n)` on `rand::thread_rng()`: the value
/// lies in `[0, n)`; the call panics on an empty range, which `requires` rules out.
#[verifier::external_body]
pub(crate) fn random_below(n: usize) -> (r: usize)
    requires
        n > 0,
    ensures
        r < n,
{
    rand::thread_rng().gen_range(0..n)
}

/// Relies on `rand::RngCore::fill_bytes` on `rand::thread_rng()`: it
/// overwrites every byte of the buffer, so the length is kept.
#[verifier::external_body]
pub(crate) fn random_bytes(len: usize) -> (r: Vec<u8>)
    ensures
        r@.len() == len,
{
    let mut buf = vec![0u8; len];
    rand::thread_rng().fill_bytes(&mut buf);
    buf
}

} // verus!
