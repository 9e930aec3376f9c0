//! The monotonic clock the registry stamps health with, in milliseconds since
//! an origin instant the registry takes when it is made.
use std::time::{Duration, Instant};
use vstd::prelude::*;

verus! {

#[verifier::external_type_specification]
#[verifier::external_body]
pub struct ExInstant(Instant);

/// `Instant::now`. Nothing is stated: the instant is what the machine's
/// monotonic clock reads.
#[verifier::external_body]
pub(crate) fn instant_now() -> (t: Instant) {
    Instant::now()
}

/// `Instant::elapsed`. Nothing is stated of the duration: it depends on the time
/// of the call.
#[verifier::external_body]
fn elapsed(origin: &Instant) -> (d: Duration) {
    origin.elapsed()
}

/// `Duration::as_millis`. Nothing is stated: the duration is opaque here.
#[verifier::external_body]
fn duration_millis(d: &Duration) -> (ms: u128) {
    d.as_millis()
}

/// Whole milliseconds elapsed on the monotonic clock since `origin`, `u64::MAX`
/// past the range of `u64`. Nothing is stated of the value: it is what the
/// machine's clock reads.
pub fn ms_since(origin: &Instant) -> (ms: u64) {
    let d = elapsed(origin);
    let ms = duration_millis(&d);
    if ms > u64::MAX as u128 {
        u64::MAX
    } else {
        ms as u64
    }
}

} // verus!
