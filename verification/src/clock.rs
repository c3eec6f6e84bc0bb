//! The system clock.
use vstd::prelude::*;

verus! {

/// `SystemTime::now().duration_since(UNIX_EPOCH)` in whole seconds (`as_secs`);
/// `None` when the clock reads a time before the epoch. Nothing is stated of the
/// value: it is the time.
#[verifier::external_body]
pub(crate) fn now_unix_secs() -> (r: Option<u64>) {
    std::time::SystemTime::now().duration_since(std::time::UNIX_EPOCH).ok().map(|d| d.as_secs())
}

} // verus!
