//! How the time taken by a request is written in the request log.
use vstd::prelude::*;

use crate::text::{decimal, push_all, push_decimal};

verus! {

/// The response hook of the request trace, which logs the latency.
#[derive(Debug, Clone, Copy)]
pub struct LatencyLayer;

/// A latency of `micros` microseconds: whole milliseconds when there is at
/// least one, else microseconds.
pub open spec fn latency_text(micros: u64) -> Seq<char> {
    if micros >= 1000 {
        decimal((micros / 1000) as nat) + " ms"@
    } else {
        decimal(micros as nat) + " μs"@
    }
}

impl LatencyLayer {
    /// The latency as it stands in the log.
    pub fn describe(micros: u64) -> (r: String)
        ensures
            r@ == latency_text(micros),
    {
        let mut r = String::new();
        if micros >= 1000 {
            push_decimal(&mut r, micros / 1000);
            push_all(&mut r, " ms");
        } else {
            push_decimal(&mut r, micros);
            push_all(&mut r, " μs");
        }
        r
    }
}

} // verus!
