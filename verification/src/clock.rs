//! Moments and deadlines, in nanoseconds.

use vstd::prelude::*;

verus! {

/// The last moment that the clock can tell.
pub const LAST_INSTANT: u128 = 9_223_372_036_854_775_807_999_999_999;

/// The moment so much later, where the clock can tell it.
pub open spec fn later(now: u128, by: u128) -> Option<u128> {
    if now + by <= LAST_INSTANT {
        Some((now + by) as u128)
    } else {
        None
    }
}

/// The moment so much later, where the clock can tell it.
pub fn after(now: u128, by: u128) -> (r: Option<u128>)
    ensures
        r == later(now, by),
{
    match now.checked_add(by) {
        Some(at) => {
            if at <= LAST_INSTANT {
                Some(at)
            } else {
                None
            }
        },
        None => None,
    }
}

/// A later instant is exactly as far off as was asked, and there is none only where it
/// would lie beyond the last second that the clock can count, the largest of 63 bits.
pub proof fn law_later_instants_lie_ahead(now: u128, by: u128, r: Option<u128>)
    requires
        call_ensures(after, (now, by), r),
    ensures
        r matches Some(then) ==> then - now == by,
        r is Some <==> (now + by) / 1_000_000_000 <= 0x7fff_ffff_ffff_ffff,
{
}

} // verus!
