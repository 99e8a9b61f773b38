//! The wall-clock timestamp shown in notifications.
use vstd::prelude::*;

verus! {

/// Relies on chrono's Local::now and its formatter: the result depends on
/// the clock and the local time zone, so nothing is promised of it.
#[verifier::external_body]
pub fn timestamp() -> String {
    chrono::Local::now().format("%Y/%m/%d %H:%M:%S").to_string()
}

} // verus!
