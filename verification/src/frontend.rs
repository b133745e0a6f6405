//! Context shared by the pages of a request.
use crate::text::{decimal, push_str, string_from_chars, u128_to_decimal};
use std::time::{Duration, Instant};
use vstd::prelude::*;

verus! {

#[verifier::external_type_specification]
#[verifier::external_body]
pub struct ExInstant(std::time::Instant);

/// Contextual information passed to the page container.
/// Initialized in Middleware. Passed in a Handler.
pub struct Context {
    pub request_start: Instant,
}

/// The human readable text of a request time in microseconds: whole
/// milliseconds above 5000µs, microseconds otherwise.
pub open spec fn request_time_text(us: u128) -> Seq<char> {
    if us > 5000 {
        decimal((us / 1000) as nat) + "ms"@
    } else {
        decimal(us as nat) + "μs"@
    }
}

/// `Instant::elapsed`: the time since `start`. Depends on the clock; nothing is
/// claimed of it.
#[verifier::external_body]
fn elapsed_since(start: &Instant) -> Duration {
    start.elapsed()
}

/// `Duration::as_micros`: the whole microseconds of a duration. What it gives
/// depends only on the duration, which Verus does not see into; nothing is
/// claimed of it.
#[verifier::external_body]
fn micros_of(d: &Duration) -> u128 {
    d.as_micros()
}

/// Human readable text of a request time in microseconds.
pub fn format_request_time(us: u128) -> (s: String)
    ensures
        s@ == request_time_text(us),
{
    let (n, unit) = if us > 5000 { (us / 1000, "ms") } else { (us, "μs") };
    let digits = u128_to_decimal(n);
    let mut s = string_from_chars(digits.as_slice());
    push_str(&mut s, unit);
    s
}

impl Context {
    /// Returns Duration representing request time.
    pub fn request_time(&self) -> Duration {
        elapsed_since(&self.request_start)
    }

    /// Returns human readable representing request time.
    pub fn request_time_as_string(&self) -> (s: String)
        ensures
            exists|us: u128| s@ == request_time_text(us),
    {
        let us = micros_of(&self.request_time());
        format_request_time(us)
    }
}

} // verus!
