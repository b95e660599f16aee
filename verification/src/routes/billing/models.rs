//! What billing is about.

use vstd::prelude::*;
use vstd::string::*;

use crate::error;
use crate::error::{ApiError, ApiResult, ErrorKind};
use crate::ids::Uuid;
use crate::text;
use crate::time::Timestamp;

verus! {

/// The tiers of an account.
#[derive(Clone, Copy, Debug, PartialEq, Eq, Structural)]
pub enum PlanTier {
    Free,
    Pro,
    Team,
}

/// How often a subscription is billed.
#[derive(Clone, Copy, Debug, PartialEq, Eq, Structural)]
pub enum BillingInterval {
    Month,
    Year,
}

/// The states of a subscription.
#[derive(Clone, Copy, Debug, PartialEq, Eq, Structural)]
pub enum SubscriptionStatus {
    Active,
    Trialing,
    PastDue,
    Canceled,
    Incomplete,
    IncompleteExpired,
    Paused,
    Unpaid,
}

/// What usage is counted.
#[derive(Clone, Copy, Debug, PartialEq, Eq, Structural)]
pub enum UsageType {
    AiTokens,
    ApiCalls,
}

/// What an account of a tier may have.
#[derive(Clone, Copy, Debug, PartialEq, Eq, Structural)]
pub struct PlanLimits {
    pub feeds: u32,
    pub rules: u32,
    pub articles: u32,
    pub api_calls_per_month: u32,
    pub ai_tokens_per_month: u32,
}

/// The prices that are set up with the payment service.
#[derive(Debug)]
pub struct StripePrices {
    pub pro_monthly: Option<String>,
    pub pro_annual: Option<String>,
    pub team_monthly: Option<String>,
    pub team_annual: Option<String>,
}

/// A subscription, as it is stored.
#[derive(Debug)]
pub struct Subscription {
    pub id: Uuid,
    pub stripe_subscription_id: String,
    pub plan_name: String,
    pub status: SubscriptionStatus,
    pub current_period_start: Timestamp,
    pub current_period_end: Timestamp,
    pub cancel_at_period_end: bool,
}

impl PlanTier {
    /// The name of a tier.
    pub open spec fn name(self) -> Seq<char> {
        match self {
            PlanTier::Free => "free"@,
            PlanTier::Pro => "pro"@,
            PlanTier::Team => "team"@,
        }
    }

    /// The tier of a name. A name that is not known is that of the free tier.
    pub open spec fn named(name: Seq<char>) -> PlanTier {
        if name == "pro"@ {
            PlanTier::Pro
        } else if name == "team"@ {
            PlanTier::Team
        } else {
            PlanTier::Free
        }
    }

    /// The name of the tier.
    pub fn as_str(&self) -> (res: &'static str)
        ensures
            res@ == self.name(),
    {
        match self {
            PlanTier::Free => "free",
            PlanTier::Pro => "pro",
            PlanTier::Team => "team",
        }
    }

    /// The tier of a name.
    pub fn parse(name: &str) -> (res: PlanTier)
        ensures
            res == PlanTier::named(name@),
    {
        if text::same(name, "pro") {
            PlanTier::Pro
        } else if text::same(name, "team") {
            PlanTier::Team
        } else {
            PlanTier::Free
        }
    }
}

/// The tier of the name of a tier is that tier.
pub proof fn tier_names_are_read_back(tier: PlanTier)
    ensures
        PlanTier::named(tier.name()) == tier,
{
    reveal_strlit("free");
    reveal_strlit("pro");
    reveal_strlit("team");
    assert("free"@[0] != "team"@[0]);
    assert("free"@.len() != "pro"@.len());
    assert("team"@.len() != "pro"@.len());
}

impl BillingInterval {
    /// The name of the interval.
    pub fn as_str(&self) -> (res: &'static str)
        ensures
            res@ == match self {
                BillingInterval::Month => "month"@,
                BillingInterval::Year => "year"@,
            },
    {
        match self {
            BillingInterval::Month => "month",
            BillingInterval::Year => "year",
        }
    }
}

impl UsageType {
    /// The name under which usage is recorded.
    pub fn as_str(&self) -> (res: &'static str)
        ensures
            res@ == match self {
                UsageType::AiTokens => "ai_tokens"@,
                UsageType::ApiCalls => "api_call"@,
            },
    {
        match self {
            UsageType::AiTokens => "ai_tokens",
            UsageType::ApiCalls => "api_call",
        }
    }
}

impl SubscriptionStatus {
    /// The name of a state.
    pub open spec fn name(self) -> Seq<char> {
        match self {
            SubscriptionStatus::Active => "active"@,
            SubscriptionStatus::Trialing => "trialing"@,
            SubscriptionStatus::PastDue => "past_due"@,
            SubscriptionStatus::Canceled => "canceled"@,
            SubscriptionStatus::Incomplete => "incomplete"@,
            SubscriptionStatus::IncompleteExpired => "incomplete_expired"@,
            SubscriptionStatus::Paused => "paused"@,
            SubscriptionStatus::Unpaid => "unpaid"@,
        }
    }

    /// The name of the state.
    pub fn as_str(&self) -> (res: &'static str)
        ensures
            res@ == self.name(),
    {
        match self {
            SubscriptionStatus::Active => "active",
            SubscriptionStatus::Trialing => "trialing",
            SubscriptionStatus::PastDue => "past_due",
            SubscriptionStatus::Canceled => "canceled",
            SubscriptionStatus::Incomplete => "incomplete",
            SubscriptionStatus::IncompleteExpired => "incomplete_expired",
            SubscriptionStatus::Paused => "paused",
            SubscriptionStatus::Unpaid => "unpaid",
        }
    }

    /// The state of a name, where it is that of one.
    pub fn parse(name: &str) -> (res: Option<SubscriptionStatus>)
        ensures
            res matches Some(status) ==> status.name() == name@,
            res is None ==> forall|status: SubscriptionStatus|
                #![trigger status.name()]
                status.name() != name@,
    {
        if text::same(name, "active") {
            Some(SubscriptionStatus::Active)
        } else if text::same(name, "trialing") {
            Some(SubscriptionStatus::Trialing)
        } else if text::same(name, "past_due") {
            Some(SubscriptionStatus::PastDue)
        } else if text::same(name, "canceled") {
            Some(SubscriptionStatus::Canceled)
        } else if text::same(name, "incomplete") {
            Some(SubscriptionStatus::Incomplete)
        } else if text::same(name, "incomplete_expired") {
            Some(SubscriptionStatus::IncompleteExpired)
        } else if text::same(name, "paused") {
            Some(SubscriptionStatus::Paused)
        } else if text::same(name, "unpaid") {
            Some(SubscriptionStatus::Unpaid)
        } else {
            None
        }
    }
}

/// No two states have the same name, so that a state can be told from its name.
pub proof fn status_names_differ(a: SubscriptionStatus, b: SubscriptionStatus)
    requires
        a.name() == b.name(),
    ensures
        a == b,
{
    reveal_strlit("active");
    reveal_strlit("trialing");
    reveal_strlit("past_due");
    reveal_strlit("canceled");
    reveal_strlit("incomplete");
    reveal_strlit("incomplete_expired");
    reveal_strlit("paused");
    reveal_strlit("unpaid");
    assert("active"@.len() == 6 && "active"@[0] == 'a');
    assert("paused"@.len() == 6 && "paused"@[0] == 'p');
    assert("unpaid"@.len() == 6 && "unpaid"@[0] == 'u');
    assert("trialing"@.len() == 8 && "trialing"@[0] == 't');
    assert("past_due"@.len() == 8 && "past_due"@[0] == 'p');
    assert("canceled"@.len() == 8 && "canceled"@[0] == 'c');
    assert("incomplete"@.len() == 10);
    assert("incomplete_expired"@.len() == 18);
}

/// The price of a plan.
pub open spec fn price_of(
    prices: StripePrices,
    plan: PlanTier,
    interval: BillingInterval,
) -> Option<Seq<char>> {
    match (plan, interval) {
        (PlanTier::Pro, BillingInterval::Month) => text::view_opt(prices.pro_monthly),
        (PlanTier::Pro, BillingInterval::Year) => text::view_opt(prices.pro_annual),
        (PlanTier::Team, BillingInterval::Month) => text::view_opt(prices.team_monthly),
        (PlanTier::Team, BillingInterval::Year) => text::view_opt(prices.team_annual),
        (PlanTier::Free, _) => None,
    }
}

impl StripePrices {
    /// The price of a plan. The free plan has none, which fails with `free`, and so may a plan
    /// that is not set up, which fails with `missing`.
    pub fn find(
        &self,
        plan: PlanTier,
        interval: BillingInterval,
        free: &str,
        missing: &str,
    ) -> (res: ApiResult<String>)
        ensures
            plan == PlanTier::Free ==> error::fails(res, ErrorKind::BadRequest, free@),
            plan != PlanTier::Free ==> match price_of(*self, plan, interval) {
                Some(price) => res matches Ok(p) && p@ == price,
                None => error::fails(res, ErrorKind::Internal, missing@),
            },
    {
        let price: &Option<String> = match (plan, interval) {
            (PlanTier::Pro, BillingInterval::Month) => &self.pro_monthly,
            (PlanTier::Pro, BillingInterval::Year) => &self.pro_annual,
            (PlanTier::Team, BillingInterval::Month) => &self.team_monthly,
            (PlanTier::Team, BillingInterval::Year) => &self.team_annual,
            (PlanTier::Free, _) => {
                return Err(ApiError::BadRequest(free.to_string()));
            },
        };
        match price {
            Some(price) => Ok(price.clone()),
            None => Err(ApiError::Internal(missing.to_string())),
        }
    }
}

/// Each plan has the price that was set up for it and for its interval, and the free plan none.
pub proof fn plan_has_its_own_price(
    prices: StripePrices,
    plan: PlanTier,
    interval: BillingInterval,
    free: &str,
    missing: &str,
    res: ApiResult<String>,
)
    requires
        call_ensures(StripePrices::find, (&prices, plan, interval, free, missing), res),
    ensures
        ({
            let set_up = if plan == PlanTier::Pro && interval == BillingInterval::Month {
                prices.pro_monthly
            } else if plan == PlanTier::Pro {
                prices.pro_annual
            } else if interval == BillingInterval::Month {
                prices.team_monthly
            } else {
                prices.team_annual
            };
            &&& res is Ok <==> plan != PlanTier::Free && set_up is Some
            &&& res matches Ok(price) ==> price@ == set_up->0@
            &&& plan == PlanTier::Free ==> error::fails(res, ErrorKind::BadRequest, free@)
            &&& plan != PlanTier::Free && set_up is None ==> error::fails(
                res,
                ErrorKind::Internal,
                missing@,
            )
        }),
{
}

/// The names of intervals and of kinds of usage tell them apart.
pub proof fn intervals_and_usage_are_told_apart(
    a: BillingInterval,
    x: &'static str,
    b: BillingInterval,
    y: &'static str,
    c: UsageType,
    v: &'static str,
    d: UsageType,
    w: &'static str,
)
    requires
        call_ensures(BillingInterval::as_str, (&a,), x),
        call_ensures(BillingInterval::as_str, (&b,), y),
        call_ensures(UsageType::as_str, (&c,), v),
        call_ensures(UsageType::as_str, (&d,), w),
    ensures
        x@ == y@ <==> a == b,
        v@ == w@ <==> c == d,
        x@ == "month"@ <==> a == BillingInterval::Month,
        x@ == "year"@ <==> a == BillingInterval::Year,
        v@ == "ai_tokens"@ <==> c == UsageType::AiTokens,
        v@ == "api_call"@ <==> c == UsageType::ApiCalls,
{
    reveal_strlit("month");
    reveal_strlit("year");
    reveal_strlit("ai_tokens");
    reveal_strlit("api_call");
    assert("month"@.len() == 5 && "year"@.len() == 4);
    assert("ai_tokens"@.len() == 9 && "api_call"@.len() == 8);
}

/// A state has the name that the payment service gives to it, and no other state has.
pub proof fn states_are_named_as_they_are(status: SubscriptionStatus, name: &'static str)
    requires
        call_ensures(SubscriptionStatus::as_str, (&status,), name),
    ensures
        name@ == "active"@ <==> status == SubscriptionStatus::Active,
        name@ == "trialing"@ <==> status == SubscriptionStatus::Trialing,
        name@ == "past_due"@ <==> status == SubscriptionStatus::PastDue,
        name@ == "canceled"@ <==> status == SubscriptionStatus::Canceled,
        name@ == "incomplete"@ <==> status == SubscriptionStatus::Incomplete,
        name@ == "incomplete_expired"@ <==> status == SubscriptionStatus::IncompleteExpired,
        name@ == "paused"@ <==> status == SubscriptionStatus::Paused,
        name@ == "unpaid"@ <==> status == SubscriptionStatus::Unpaid,
{
    if name@ == "active"@ {
        status_names_differ(status, SubscriptionStatus::Active);
    }
    if name@ == "trialing"@ {
        status_names_differ(status, SubscriptionStatus::Trialing);
    }
    if name@ == "past_due"@ {
        status_names_differ(status, SubscriptionStatus::PastDue);
    }
    if name@ == "canceled"@ {
        status_names_differ(status, SubscriptionStatus::Canceled);
    }
    if name@ == "incomplete"@ {
        status_names_differ(status, SubscriptionStatus::Incomplete);
    }
    if name@ == "incomplete_expired"@ {
        status_names_differ(status, SubscriptionStatus::IncompleteExpired);
    }
    if name@ == "paused"@ {
        status_names_differ(status, SubscriptionStatus::Paused);
    }
    if name@ == "unpaid"@ {
        status_names_differ(status, SubscriptionStatus::Unpaid);
    }
}

/// The name of a state is read as that state, and a name that none has as none. The name of a
/// plan is read as that plan, and any other as the free one.
pub proof fn names_are_read_as_what_they_name(
    name: &str,
    res: Option<SubscriptionStatus>,
    named: SubscriptionStatus,
    plan: PlanTier,
)
    requires
        call_ensures(SubscriptionStatus::parse, (name,), res),
        call_ensures(PlanTier::parse, (name,), plan),
    ensures
        res == Some(named) <==> name@ == named.name(),
        plan == PlanTier::Pro <==> name@ == "pro"@,
        plan == PlanTier::Team <==> name@ == "team"@,
        plan == PlanTier::Free <==> name@ != "pro"@ && name@ != "team"@,
{
    reveal_strlit("pro");
    reveal_strlit("team");
    assert("pro"@.len() != "team"@.len());
    if let Some(found) = res {
        if name@ == named.name() {
            status_names_differ(found, named);
        }
    }
}

} // verus!
