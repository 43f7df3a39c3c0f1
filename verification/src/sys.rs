//! The engine's two windows on the machine: a monotonic-enough clock for
//! deadlines and the amount of memory available for the transposition
//! table.  Both results depend on the machine and the moment, so nothing
//! is promised of them; every caller states what holds whatever comes
//! back.

use vstd::prelude::*;

verus! {

/// Relies on chrono's `Utc::now` and `DateTime::timestamp_micros`: the
/// current wall-clock time as microseconds since the Unix epoch.  The
/// value depends on the moment of the call, so nothing is promised of it.
#[verifier::external_body]
pub fn now_micros() -> i64 {
    chrono::Utc::now().timestamp_micros()
}

/// Relies on sysinfo's `System::refresh_memory` and `available_memory`:
/// the memory currently available on this machine, in bytes.  The value
/// depends on the machine and the moment, so nothing is promised of it.
#[verifier::external_body]
pub fn available_memory_bytes() -> u64 {
    let mut sys = sysinfo::System::new();
    sys.refresh_memory();
    sys.available_memory()
}

} // verus!
