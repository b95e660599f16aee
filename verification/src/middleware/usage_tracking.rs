//! How much of their monthly allowance a user has used up.

use vstd::prelude::*;
use vstd::string::*;

use crate::calendar;
use crate::routes::billing::models::PlanTier;
use crate::routes::billing::service;
use crate::text;
use crate::time::Timestamp;

verus! {

/// How much of their monthly allowance a user has used up.
#[derive(Clone, Copy, Debug, PartialEq, Eq, Structural)]
pub struct UsageLimitStatus {
    pub ai_tokens_used: i64,
    pub ai_tokens_limit: i64,
    pub ai_tokens_remaining: i64,
    pub api_calls_used: i64,
    pub api_calls_limit: i64,
    pub api_calls_remaining: i64,
    pub is_over_limit: bool,
}

/// The monthly allowance of tokens and of calls of a tier. A tier that is not known has that
/// of the free one.
pub open spec fn allowance(tier: Seq<char>) -> (i64, i64) {
    if tier == "pro"@ {
        (500_000, 50_000)
    } else if tier == "team"@ {
        (2_000_000, 200_000)
    } else {
        (10_000, 1_000)
    }
}

/// What is left of an allowance, at least nothing.
pub open spec fn remaining(limit: i64, used: i64) -> int {
    if used < limit {
        limit - used
    } else {
        0
    }
}

/// When the month began for which usage is counted.
pub fn usage_period_start(now: Timestamp) -> (res: Timestamp)
    requires
        now.ordinary(),
    ensures
        calendar::instant_at(calendar::start_of_month(calendar::date_of(now))) == Some(res),
        res.ordinary(),
{
    calendar::month_start(now)
}

fn allowance_of(tier: &str) -> (res: (i64, i64))
    ensures
        res == allowance(tier@),
{
    if text::same(tier, "free") {
        proof {
            reveal_strlit("free");
            reveal_strlit("pro");
            reveal_strlit("team");
            assert("free"@[0] != "team"@[0]);
            assert("free"@.len() != "pro"@.len());
        }
        (10_000, 1_000)
    } else if text::same(tier, "pro") {
        (500_000, 50_000)
    } else if text::same(tier, "team") {
        proof {
            reveal_strlit("pro");
            reveal_strlit("team");
            assert("team"@.len() != "pro"@.len());
        }
        (2_000_000, 200_000)
    } else {
        (10_000, 1_000)
    }
}

/// How much of their allowance a user of a tier has used up who has used so many tokens and
/// made so many calls this month.
pub fn check_usage_limits(tier: &str, ai_tokens: i64, api_calls: i64) -> (res: UsageLimitStatus)
    requires
        allowance(tier@).0 - ai_tokens <= i64::MAX,
        allowance(tier@).1 - api_calls <= i64::MAX,
    ensures
        res.ai_tokens_used == ai_tokens,
        res.ai_tokens_limit == allowance(tier@).0,
        res.ai_tokens_remaining == remaining(allowance(tier@).0, ai_tokens),
        res.api_calls_used == api_calls,
        res.api_calls_limit == allowance(tier@).1,
        res.api_calls_remaining == remaining(allowance(tier@).1, api_calls),
        res.is_over_limit == (ai_tokens >= allowance(tier@).0 || api_calls >= allowance(tier@).1),
{
    let (ai_limit, api_limit) = allowance_of(tier);
    UsageLimitStatus {
        ai_tokens_used: ai_tokens,
        ai_tokens_limit: ai_limit,
        ai_tokens_remaining: if ai_tokens < ai_limit {
            ai_limit - ai_tokens
        } else {
            0
        },
        api_calls_used: api_calls,
        api_calls_limit: api_limit,
        api_calls_remaining: if api_calls < api_limit {
            api_limit - api_calls
        } else {
            0
        },
        is_over_limit: ai_tokens >= ai_limit || api_calls >= api_limit,
    }
}

/// The monthly allowance of a tier is what an account of that tier may use in a month.
pub proof fn allowance_is_that_of_the_plan(tier: Seq<char>)
    ensures
        ({
            let limits = service::limits_of(PlanTier::named(tier));
            &&& allowance(tier).0 == limits.ai_tokens_per_month
            &&& allowance(tier).1 == limits.api_calls_per_month
        }),
{
}

/// A user is over their limit if and only if nothing is left of one of the allowances, and
/// what is left is never negative.
pub proof fn over_limit_means_nothing_left(tier: Seq<char>, ai_tokens: i64, api_calls: i64)
    ensures
        remaining(allowance(tier).0, ai_tokens) >= 0,
        remaining(allowance(tier).1, api_calls) >= 0,
        (ai_tokens >= allowance(tier).0 || api_calls >= allowance(tier).1) <==> (remaining(
            allowance(tier).0,
            ai_tokens,
        ) == 0 || remaining(allowance(tier).1, api_calls) == 0),
{
}

/// A user may use 10,000 tokens and 1,000 calls a month, fifty times as much with the plan `pro`
/// and two hundred times as much with `team`. What is used and what is left make up the
/// allowance as long as it is not exceeded, and a user is over the limit once one of the two is
/// used up.
pub proof fn usage_is_held_against_the_tier(
    tier: &str,
    ai_tokens: i64,
    api_calls: i64,
    res: UsageLimitStatus,
)
    requires
        call_ensures(check_usage_limits, (tier, ai_tokens, api_calls), res),
    ensures
        res.ai_tokens_limit == 10 * res.api_calls_limit,
        tier@ == "pro"@ ==> res.api_calls_limit == 50_000,
        tier@ == "team"@ ==> res.api_calls_limit == 200_000,
        tier@ != "pro"@ && tier@ != "team"@ ==> res.api_calls_limit == 1_000,
        res.ai_tokens_used == ai_tokens,
        res.api_calls_used == api_calls,
        ai_tokens <= res.ai_tokens_limit ==> res.ai_tokens_used + res.ai_tokens_remaining
            == res.ai_tokens_limit,
        ai_tokens > res.ai_tokens_limit ==> res.ai_tokens_remaining == 0,
        api_calls <= res.api_calls_limit ==> res.api_calls_used + res.api_calls_remaining
            == res.api_calls_limit,
        api_calls > res.api_calls_limit ==> res.api_calls_remaining == 0,
        res.is_over_limit <==> res.ai_tokens_remaining == 0 || res.api_calls_remaining == 0,
{
    reveal_strlit("pro");
    reveal_strlit("team");
    assert("pro"@.len() != "team"@.len());
}

/// Usage is counted from the midnight of the first day of the month on.
pub proof fn usage_is_counted_from_the_first(now: Timestamp, res: Timestamp)
    requires
        call_ensures(usage_period_start, (now,), res),
    ensures
        ({
            let date = calendar::date_of(now);
            calendar::instant_at(
                calendar::Calendar { day: 1, hour: 0, minute: 0, second: 0, nanos: 0, ..date },
            ) == Some(res)
        }),
{
}

} // verus!
