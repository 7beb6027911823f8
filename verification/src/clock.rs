use vstd::prelude::*;

verus! {

/// Relies on chrono's conversion from the system clock (DateTime<Utc> from
/// SystemTime, then timestamp_millis): the wall clock as milliseconds since
/// the Unix epoch. A clock before the epoch gives a negative value; one
/// outside chrono's representable range is reported as zero instead of
/// letting the conversion panic. The value depends on when the call runs,
/// so nothing is assumed about it.
#[verifier::external_body]
pub(crate) fn now_millis() -> i64 {
    let sys = std::time::SystemTime::now();
    let seconds_in_range = match sys.duration_since(std::time::UNIX_EPOCH) {
        Ok(d) => d.as_secs() < 8_000_000_000_000,
        Err(e) => e.duration().as_secs() < 8_000_000_000_000,
    };
    if seconds_in_range {
        chrono::DateTime::<chrono::Utc>::from(sys).timestamp_millis()
    } else {
        0
    }
}

} // verus!
