//! Random credentials, drawn from the operating system's generator.
use rand::distributions::{Alphanumeric, DistString};
use vstd::prelude::*;

verus! {

/// An ASCII letter or digit.
pub open spec fn is_alphanumeric(c: char) -> bool {
    ('a' <= c && c <= 'z') || ('A' <= c && c <= 'Z') || ('0' <= c && c <= '9')
}

pub open spec fn all_alphanumeric(s: Seq<char>) -> bool {
    forall|i: int| 0 <= i < s.len() ==> is_alphanumeric(#[trigger] s[i])
}

/// Relies on rand's `DistString::sample_string` for `Alphanumeric`: `size`
/// characters, each an ASCII letter or digit.
#[verifier::external_body]
fn sample_alphanumeric(size: usize) -> (r: String)
    ensures
        r@.len() == size,
        all_alphanumeric(r@),
{
    Alphanumeric.sample_string(&mut rand::thread_rng(), size)
}

/// A random string of `size` ASCII letters and digits.
pub fn random_alphanumeric_string(size: usize) -> (r: String)
    ensures
        r@.len() == size,
        all_alphanumeric(r@),
{
    sample_alphanumeric(size)
}

} // verus!
