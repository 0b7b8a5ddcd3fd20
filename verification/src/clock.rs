use vstd::prelude::*;

verus! {

/// std's system clock read against the Unix epoch
/// (`SystemTime::now().duration_since(UNIX_EPOCH)`): whole seconds and the
/// nanoseconds past them, or `None` for a clock set before the epoch.
/// Claimed: the nanoseconds are under one second, as a `Duration` keeps
/// them. Nothing is claimed of the time itself.
#[verifier::external_body]
pub(crate) fn since_epoch() -> (r: Option<(u64, u32)>)
    ensures
        r matches Some(d) ==> d.1 < 1_000_000_000,
{
    match std::time::SystemTime::now().duration_since(std::time::UNIX_EPOCH) {
        Ok(d) => Some((d.as_secs(), d.subsec_nanos())),
        Err(_) => None,
    }
}

/// Milliseconds in a clock reading, kept to the low 64 bits (as
/// `Duration::as_millis` cast to `u64`); 0 for a clock before the epoch.
pub open spec fn millis_of(reading: Option<(u64, u32)>) -> u64 {
    match reading {
        Some(d) => ((d.0 as int * 1000 + d.1 as int / 1_000_000) % 0x1_0000_0000_0000_0000) as u64,
        None => 0,
    }
}

/// The milliseconds of a clock reading (see `millis_of`).
pub fn reading_millis(reading: Option<(u64, u32)>) -> (ms: u64)
    ensures
        ms == millis_of(reading),
{
    match reading {
        Some((secs, nanos)) => {
            let total: u128 = secs as u128 * 1000 + (nanos / 1_000_000) as u128;
            (total % 0x1_0000_0000_0000_0000u128) as u64
        },
        None => 0,
    }
}

/// The time since the Unix epoch in milliseconds, 0 for a clock set before
/// it; what the clock reads is not known here.
pub fn now_ms() -> u64 {
    reading_millis(since_epoch())
}

} // verus!
