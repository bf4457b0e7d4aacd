//! A time-seeded number for tagging values that should differ between calls.
use vstd::prelude::*;
use std::collections::hash_map::DefaultHasher;
use std::hash::Hasher;
use vstd::std_specs::hash::DefaultHasherAdditionalSpecFns;

verus! {

/// std's system time, only passed from the clock to the hasher.
#[verifier::external_type_specification]
#[verifier::external_body]
pub struct ExSystemTime(std::time::SystemTime);

/// Relies on SystemTime::now: the current system time. Nothing is claimed of it.
#[verifier::external_body]
fn system_time_now() -> std::time::SystemTime {
    std::time::SystemTime::now()
}

/// Relies on SystemTime's `Hash` impl: feeds the time to the hasher. What it
/// writes is not claimed.
#[verifier::external_body]
fn hash_time(t: &std::time::SystemTime, hasher: &mut DefaultHasher) {
    std::hash::Hash::hash(t, hasher)
}

/// A number derived from the current time: the digest of some sequence of
/// writes to a fresh `DefaultHasher`.
pub fn random_usize() -> (r: usize)
    ensures
        exists|writes: Seq<Seq<u8>>| r == DefaultHasher::spec_finish(writes) as usize,
{
    let time = system_time_now();
    let mut hasher = DefaultHasher::new();
    hash_time(&time, &mut hasher);
    let digest = hasher.finish();
    digest as usize
}

} // verus!
