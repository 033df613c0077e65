//! Instants on a timeline that extends both before and after a reference
//! epoch, built from a nonnegative span and a one-bit era.

pub mod duration;
pub mod instant;
pub mod laws;

use crate::instant::Instant;
use vstd::prelude::*;

verus! {

/// A system for measuring spans of time, such as UTC or Julian days, that
/// converts to and from `Instant`.
pub trait TimeSystem: PartialOrd + Sized {
    fn from_instant(instant: Instant) -> Self;

    fn as_instant(self) -> Instant;
}

/// Errors reported by the time systems built on `Instant`.
#[derive(Clone, Copy, Debug, PartialEq, Eq, Structural)]
pub enum Errors {
    /// A field was given a value that would need a carry into the next
    /// field, such as 60 seconds in a minute that has only 59.
    Carry,
}

impl Errors {
    /// A description of the error.
    pub fn to_string(&self) -> (r: String)
        ensures
            r@ == "a carry error (e.g. 61 seconds)"@,
    {
        match self {
            Errors::Carry => "a carry error (e.g. 61 seconds)".to_owned(),
        }
    }
}

} // verus!
