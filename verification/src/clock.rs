//! The wall clock.
use vstd::prelude::*;

verus! {

/// `SystemTime::now().duration_since(UNIX_EPOCH)` in milliseconds; `None`
/// when the clock reads before the epoch. Nothing is promised of the
/// value: it is the time.
#[verifier::external_body]
fn millis_since_epoch() -> (r: Option<u128>) {
    std::time::SystemTime::now().duration_since(std::time::UNIX_EPOCH).ok().map(|d| d.as_millis())
}

/// Milliseconds since the epoch as the services keep them: cut to 64 bits
/// (`as i64`), and 0 for a clock that reads before the epoch.
pub fn epoch_millis_i64(ms: Option<u128>) -> (r: i64)
    ensures
        r == match ms {
            Some(v) => v as i64,
            None => 0i64,
        },
{
    match ms {
        Some(v) => #[verifier::truncate] (v as i64),
        None => 0,
    }
}

/// The wall-clock time in milliseconds since the Unix epoch, cut to 64
/// bits; 0 when the clock reads before the epoch.
pub fn rtc_time_ms() -> (r: i64) {
    epoch_millis_i64(millis_since_epoch())
}

} // verus!
