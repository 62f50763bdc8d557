//! Premium subscriptions, with instants as seconds since the Unix epoch.
use vstd::prelude::*;

verus! {

pub const SECONDS_PER_DAY: i64 = 86400;

/// Price of a subscription in Telegram Stars.
pub const SUBSCRIPTION_PRICE_STARS: i32 = 50;

/// Length of a subscription in days.
pub const SUBSCRIPTION_DAYS: i64 = 30;

/// Prefix of the payload that identifies a subscription payment.
pub const PAYMENT_PAYLOAD_PREFIX: &'static str = "premium_sub_";

/// What a user sees of their subscription.
#[derive(Debug, Clone, Copy, PartialEq, Eq, Structural)]
pub enum SubscriptionInfo {
    Active { expires_at: i64, days_left: i64 },
    Expired { expired_at: i64 },
    Unsubscribed,
}

/// A subscription is active while its expiration lies ahead.
pub fn is_subscribed(expires_at: Option<i64>, now: i64) -> (r: bool)
    ensures
        r == (expires_at is Some && expires_at->Some_0 > now),
{
    match expires_at {
        Some(t) => t > now,
        None => false,
    }
}

/// The new expiration after adding `days`: counted from the current
/// expiration while it lies ahead, from `now` otherwise. `None` where the
/// result does not fit.
pub fn extended_expiration(current: Option<i64>, now: i64, days: i64) -> (r: Option<i64>)
    ensures
        ({
            let base: int = match current {
                Some(t) => if t > now {
                    t as int
                } else {
                    now as int
                },
                None => now as int,
            };
            let target = base + days * SECONDS_PER_DAY;
            &&& r is Some <==> i64::MIN <= target <= i64::MAX
            &&& r is Some ==> r->Some_0 == target
        }),
{
    let base: i64 = match current {
        Some(t) => if t > now {
            t
        } else {
            now
        },
        None => now,
    };
    let target: i128 = base as i128 + days as i128 * SECONDS_PER_DAY as i128;
    if target < i64::MIN as i128 || target > i64::MAX as i128 {
        None
    } else {
        Some(target as i64)
    }
}

/// The state of a subscription at `now`; whole days left are counted down.
pub fn get_subscription_info(expires_at: Option<i64>, now: i64) -> (r: SubscriptionInfo)
    ensures
        match expires_at {
            Some(t) => if t > now {
                r == SubscriptionInfo::Active {
                    expires_at: t,
                    days_left: ((t - now) / SECONDS_PER_DAY as int) as i64,
                }
            } else {
                r == SubscriptionInfo::Expired { expired_at: t }
            },
            None => r == SubscriptionInfo::Unsubscribed,
        },
{
    match expires_at {
        Some(t) => if t > now {
            let left: i128 = (t as i128 - now as i128) / SECONDS_PER_DAY as i128;
            SubscriptionInfo::Active { expires_at: t, days_left: left as i64 }
        } else {
            SubscriptionInfo::Expired { expired_at: t }
        },
        None => SubscriptionInfo::Unsubscribed,
    }
}

} // verus!
