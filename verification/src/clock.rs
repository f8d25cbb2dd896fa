use vstd::prelude::*;

verus! {

/// Relies on `std::time::SystemTime`: reads the system clock and reports the
/// number of whole seconds since the Unix epoch, or zero when the clock reads
/// earlier than the epoch. Nothing is promised of the result: it depends on
/// the machine's clock at the moment of the call.
#[verifier::external_body]
pub(crate) fn now_secs() -> u64 {
    match std::time::SystemTime::now().duration_since(std::time::SystemTime::UNIX_EPOCH) {
        Ok(d) => d.as_secs(),
        Err(_) => 0,
    }
}

} // verus!
