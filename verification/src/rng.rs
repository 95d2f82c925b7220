//! Random numbers from the thread-local generator of `rand`.
use vstd::prelude::*;

verus! {

/// `rand::random::<u8>()`: any byte; nothing is promised of its value.
#[verifier::external_body]
pub(crate) fn random_u8() -> u8 {
    rand::random::<u8>()
}

/// `rand::random::<u16>()`: any `u16`; nothing is promised of its value.
#[verifier::external_body]
pub(crate) fn random_u16() -> u16 {
    rand::random::<u16>()
}

/// `rand::random::<u32>()`: any `u32`; nothing is promised of its value.
#[verifier::external_body]
pub(crate) fn random_u32() -> u32 {
    rand::random::<u32>()
}

/// `rand::random::<u128>()`: any `u128`; nothing is promised of its value.
#[verifier::external_body]
pub(crate) fn random_u128() -> u128 {
    rand::random::<u128>()
}

/// `rand::random_range(lo..=hi)`: a value within the closed range, which must
/// not be empty (the crate panics on an empty range).
#[verifier::external_body]
pub(crate) fn random_range_inclusive(lo: i32, hi: i32) -> (r: i32)
    requires
        lo <= hi,
    ensures
        lo <= r <= hi,
{
    rand::random_range(lo..=hi)
}

} // verus!
