use vstd::prelude::*;

verus! {

/// The milliseconds that lie between `since` and `now`, two readings of one
/// clock. A reading that lies before `since` counts as no time passed.
pub open spec fn elapsed_ms(since: u64, now: u64) -> int {
    if now >= since {
        now - since
    } else {
        0
    }
}

/// Whether more than `limit_secs` seconds lie between `since` and `now`.
pub open spec fn longer_than(since: u64, now: u64, limit_secs: u64) -> bool {
    elapsed_ms(since, now) > limit_secs * 1000
}

/// Whether at least `limit_secs` seconds lie between `since` and `now`.
pub open spec fn at_least(since: u64, now: u64, limit_secs: u64) -> bool {
    elapsed_ms(since, now) >= limit_secs * 1000
}

/// The milliseconds that lie between `since` and `now`.
pub fn elapsed(since: u64, now: u64) -> (ms: u64)
    ensures
        ms == elapsed_ms(since, now),
{
    if now >= since {
        now - since
    } else {
        0
    }
}

/// Whether more than `limit_secs` seconds lie between `since` and `now`.
pub fn is_longer_than(since: u64, now: u64, limit_secs: u64) -> (late: bool)
    ensures
        late == longer_than(since, now, limit_secs),
{
    let passed: u128 = elapsed(since, now) as u128;
    let limit: u128 = (limit_secs as u128) * 1000;
    passed > limit
}

/// Whether at least `limit_secs` seconds lie between `since` and `now`.
pub fn is_at_least(since: u64, now: u64, limit_secs: u64) -> (late: bool)
    ensures
        late == at_least(since, now, limit_secs),
{
    let passed: u128 = elapsed(since, now) as u128;
    let limit: u128 = (limit_secs as u128) * 1000;
    passed >= limit
}

} // verus!
