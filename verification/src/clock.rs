//! The only nondeterministic inputs of the library: the current wall time,
//! taken on trust from chrono. Nothing is assumed about the values returned;
//! every caller states what holds whatever they are.

use vstd::prelude::*;

verus! {

/// Relies on `chrono::Local::now` and chrono's `%`-formatting: the current
/// local time rendered as `YYYY-MM-DDTHH:MM:SS`. The value depends on the
/// clock, so nothing is promised of it.
#[verifier::external_body]
pub fn now_iso() -> String {
    chrono::Local::now().format("%Y-%m-%dT%H:%M:%S").to_string()
}

/// Relies on `chrono::Local::now` and chrono's `%`-formatting: the current
/// local time rendered as `YYYYMMDD-HHMMSS`, used in snapshot file names.
/// The value depends on the clock, so nothing is promised of it.
#[verifier::external_body]
pub fn now_stamp() -> String {
    chrono::Local::now().format("%Y%m%d-%H%M%S").to_string()
}

} // verus!
