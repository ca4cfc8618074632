//! Hashing of paths and random names for temporary folders.

use vstd::prelude::*;
use vstd::string::StringSliceAdditionalSpecFns;
use crate::paths::{join, join_of};
use crate::size_format::{decimal, u64_text};

verus! {

/// The 64-bit XXH3 hash (seed 0) of `data`, as `xxhash_rust::xxh3::xxh3_64` computes it.
pub uninterp spec fn xxh3_of(data: Seq<u8>) -> u64;

/// `xxhash_rust::xxh3::xxh3_64`: the 64-bit XXH3 hash of `data` with the
/// default seed and secret. Only that it is a function of `data` is claimed.
#[verifier::external_body]
fn xxh3_64_hash(data: &[u8]) -> (r: u64)
    ensures
        r == xxh3_of(data@),
{
    xxhash_rust::xxh3::xxh3_64(data)
}

/// The hash recorded for a file: the decimal XXH3 hash of its path's UTF-8
/// bytes (derived from the path, not from the contents).
pub fn path_hash(path: &str) -> (r: String)
    ensures
        r@ == decimal(xxh3_of(path.spec_bytes()) as nat),
{
    let h = xxh3_64_hash(path.as_bytes());
    u64_text(h)
}

/// Whether `c` is an ASCII letter or digit.
pub open spec fn is_ascii_alphanumeric(c: char) -> bool {
    ('a' <= c && c <= 'z') || ('A' <= c && c <= 'Z') || ('0' <= c && c <= '9')
}

/// `length` random ASCII letters and digits, from `rand`'s `Alphanumeric`
/// distribution on the thread generator. Claimed: the length, and that each
/// character is a letter or digit; which ones come is chance.
#[verifier::external_body]
pub fn generate_random_string(length: usize) -> (r: String)
    ensures
        r@.len() == length,
        forall|i: int| 0 <= i < r@.len() ==> is_ascii_alphanumeric(#[trigger] r@[i]),
{
    rand::distr::SampleString::sample_string(&rand::distr::Alphanumeric, &mut rand::rng(), length)
}

/// A fresh temporary folder path: twelve random letters and digits under `cache_dir`.
pub fn generate_temp_dir(cache_dir: &str) -> (r: String)
    ensures
        exists|name: Seq<char>| {
            &&& name.len() == 12
            &&& forall|i: int| 0 <= i < 12 ==> is_ascii_alphanumeric(#[trigger] name[i])
            &&& r@ == join_of(cache_dir@, name)
        },
{
    let random_string = generate_random_string(12);
    let r = join(cache_dir, random_string.as_str());
    assert(forall|i: int| 0 <= i < 12 ==> is_ascii_alphanumeric(#[trigger] random_string@[i]));
    r
}

} // verus!
