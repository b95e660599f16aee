//! The rules of billing.

use vstd::prelude::*;
use vstd::string::*;

use crate::calendar;
use crate::error;
use crate::error::{ApiError, ApiResult, ErrorKind};
use crate::ids::Uuid;
use crate::routes::billing::models;
use crate::routes::billing::models::{
    BillingInterval, PlanLimits, PlanTier, StripePrices, Subscription, SubscriptionStatus,
    UsageType,
};
use crate::text;
use crate::time;
use crate::time::Timestamp;

verus! {

/// What an account of a tier may have.
pub open spec fn limits_of(tier: PlanTier) -> PlanLimits {
    match tier {
        PlanTier::Free => PlanLimits {
            feeds: 100,
            rules: 10,
            articles: 2_000,
            api_calls_per_month: 1_000,
            ai_tokens_per_month: 10_000,
        },
        PlanTier::Pro => PlanLimits {
            feeds: 10_000,
            rules: 500,
            articles: 100_000,
            api_calls_per_month: 50_000,
            ai_tokens_per_month: 500_000,
        },
        PlanTier::Team => PlanLimits {
            feeds: 10_000,
            rules: 500,
            articles: 100_000,
            api_calls_per_month: 200_000,
            ai_tokens_per_month: 2_000_000,
        },
    }
}

/// What an account of a tier may have.
pub fn get_plan_limits(tier: PlanTier) -> (res: PlanLimits)
    ensures
        res == limits_of(tier),
{
    match tier {
        PlanTier::Free => PlanLimits {
            feeds: 100,
            rules: 10,
            articles: 2_000,
            api_calls_per_month: 1_000,
            ai_tokens_per_month: 10_000,
        },
        PlanTier::Pro => PlanLimits {
            feeds: 10_000,
            rules: 500,
            articles: 100_000,
            api_calls_per_month: 50_000,
            ai_tokens_per_month: 500_000,
        },
        PlanTier::Team => PlanLimits {
            feeds: 10_000,
            rules: 500,
            articles: 100_000,
            api_calls_per_month: 200_000,
            ai_tokens_per_month: 2_000_000,
        },
    }
}

/// How a tier stands among the others.
pub open spec fn rank(tier: PlanTier) -> int {
    match tier {
        PlanTier::Free => 0,
        PlanTier::Pro => 1,
        PlanTier::Team => 2,
    }
}

/// A higher tier never has less of anything.
pub proof fn higher_tiers_have_no_less(lower: PlanTier, higher: PlanTier)
    requires
        rank(lower) <= rank(higher),
    ensures
        limits_of(lower).feeds <= limits_of(higher).feeds,
        limits_of(lower).rules <= limits_of(higher).rules,
        limits_of(lower).articles <= limits_of(higher).articles,
        limits_of(lower).api_calls_per_month <= limits_of(higher).api_calls_per_month,
        limits_of(lower).ai_tokens_per_month <= limits_of(higher).ai_tokens_per_month,
{
}

/// The limits of an account whose tier is stored under a name.
pub fn get_user_limits(tier: &str) -> (res: PlanLimits)
    ensures
        res == limits_of(PlanTier::named(tier@)),
{
    get_plan_limits(PlanTier::parse(tier))
}

/// The price of a plan that is subscribed to.
pub fn get_price_id(prices: &StripePrices, plan: PlanTier, interval: BillingInterval) -> (res:
    ApiResult<String>)
    ensures
        plan == PlanTier::Free ==> error::fails(
            res,
            ErrorKind::BadRequest,
            "Free plan has no subscription"@,
        ),
        plan != PlanTier::Free ==> match models::price_of(*prices, plan, interval) {
            Some(price) => res matches Ok(p) && p@ == price,
            None => error::fails(res, ErrorKind::Internal, "Price ID not configured"@),
        },
{
    prices.find(plan, interval, "Free plan has no subscription", "Price ID not configured")
}

/// The day from which a new subscription is billed, one that every month has.
pub fn calculate_billing_anchor(now: Timestamp) -> (res: Option<Timestamp>)
    requires
        now.ordinary(),
    ensures
        calendar::date_of(now).day <= 28 ==> res == Some(now),
        calendar::date_of(now).day > 28 ==> match calendar::anchor_of(calendar::date_of(now)) {
            Some(date) => res is Some && calendar::instant_at(date) == res,
            None => res is None,
        },
{
    calendar::billing_anchor(now)
}

/// An item of a subscription at the payment service: its price, and the product of that price.
#[derive(Debug)]
pub struct StripeItem {
    pub price: Option<StripePrice>,
}

/// A price at the payment service.
#[derive(Debug)]
pub struct StripePrice {
    pub id: String,
    pub product: Option<String>,
}

/// A subscription at the payment service.
#[derive(Debug)]
pub struct StripeSubscription {
    pub id: String,
    pub status: SubscriptionStatus,
    pub items: Vec<StripeItem>,
    pub current_period_start: i64,
    pub current_period_end: i64,
    pub billing_cycle_anchor: i64,
    pub trial_start: Option<i64>,
    pub trial_end: Option<i64>,
    pub canceled_at: Option<i64>,
    pub cancel_at_period_end: bool,
}

/// What is stored of a new subscription.
#[derive(Debug)]
pub struct NewSubscription {
    pub stripe_subscription_id: String,
    pub stripe_price_id: String,
    pub stripe_product_id: String,
    pub plan_name: String,
    pub billing_interval: BillingInterval,
    pub status: SubscriptionStatus,
    pub current_period_start: Option<Timestamp>,
    pub current_period_end: Option<Timestamp>,
    pub billing_cycle_anchor: Option<Timestamp>,
    pub trial_start: Option<Timestamp>,
    pub trial_end: Option<Timestamp>,
    pub cancel_at_period_end: bool,
}

/// The price of the first item, or nothing.
pub open spec fn first_price(items: Seq<StripeItem>) -> Seq<char> {
    if items.len() > 0 && items[0].price is Some {
        items[0].price->0.id@
    } else {
        Seq::empty()
    }
}

/// The product of the first item, or nothing.
pub open spec fn first_product(items: Seq<StripeItem>) -> Seq<char> {
    if items.len() > 0 && items[0].price is Some {
        text::or_empty(text::view_opt(items[0].price->0.product))
    } else {
        Seq::empty()
    }
}

/// What is stored of a new subscription.
pub fn store_subscription(
    sub: &StripeSubscription,
    plan: PlanTier,
    interval: BillingInterval,
) -> (res: NewSubscription)
    ensures
        res.stripe_subscription_id@ == sub.id@,
        res.stripe_price_id@ == first_price(sub.items@),
        res.stripe_product_id@ == first_product(sub.items@),
        res.plan_name@ == plan.name(),
        res.billing_interval == interval,
        res.status == sub.status,
        res.current_period_start == time::unix(sub.current_period_start),
        res.current_period_end == time::unix(sub.current_period_end),
        res.billing_cycle_anchor == time::unix(sub.billing_cycle_anchor),
        res.trial_start == time::optional_unix(sub.trial_start),
        res.trial_end == time::optional_unix(sub.trial_end),
        res.cancel_at_period_end == sub.cancel_at_period_end,
{
    let mut price_id: String = String::new();
    let mut product_id: String = String::new();
    if sub.items.len() > 0 {
        if let Some(price) = &sub.items[0].price {
            price_id = price.id.clone();
            if let Some(product) = &price.product {
                product_id = product.clone();
            }
        }
    }
    NewSubscription {
        stripe_subscription_id: sub.id.clone(),
        stripe_price_id: price_id,
        stripe_product_id: product_id,
        plan_name: plan.as_str().to_string(),
        billing_interval: interval,
        status: sub.status,
        current_period_start: time::from_unix(sub.current_period_start),
        current_period_end: time::from_unix(sub.current_period_end),
        billing_cycle_anchor: time::from_unix(sub.billing_cycle_anchor),
        trial_start: time::from_optional_unix(sub.trial_start),
        trial_end: time::from_optional_unix(sub.trial_end),
        cancel_at_period_end: sub.cancel_at_period_end,
    }
}

/// How a subscription ends.
#[derive(Clone, Copy, Debug, PartialEq, Eq, Structural)]
pub enum Cancellation {
    /// At once: the subscription is canceled, and the account goes back to this tier.
    Now(PlanTier),
    /// At the end of the period that is paid for. Nothing changes until then.
    AtPeriodEnd,
}

/// How a subscription ends.
pub fn cancellation(immediate: bool) -> (res: Cancellation)
    ensures
        res == if immediate {
            Cancellation::Now(PlanTier::Free)
        } else {
            Cancellation::AtPeriodEnd
        },
{
    if immediate {
        Cancellation::Now(PlanTier::Free)
    } else {
        Cancellation::AtPeriodEnd
    }
}

/// The subscription of a user that a request is about.
pub fn require_subscription(sub: Option<Subscription>) -> (res: ApiResult<Subscription>)
    ensures
        match sub {
            Some(sub) => res == Ok::<Subscription, ApiError>(sub),
            None => error::fails(res, ErrorKind::NotFound, "Subscription"@),
        },
{
    match sub {
        Some(sub) => Ok(sub),
        None => Err(ApiError::NotFound("Subscription".to_string())),
    }
}

/// A subscription is taken up again where it was to end with its period.
pub fn check_reactivation(cancel_at_period_end: bool) -> (res: ApiResult<()>)
    ensures
        cancel_at_period_end ==> res is Ok,
        !cancel_at_period_end ==> error::fails(
            res,
            ErrorKind::BadRequest,
            "Subscription is not scheduled for cancellation"@,
        ),
{
    if cancel_at_period_end {
        Ok(())
    } else {
        Err(ApiError::BadRequest("Subscription is not scheduled for cancellation".to_string()))
    }
}

/// What a record of usage adds to the tokens and to the calls of a day.
pub fn usage_deltas(usage_type: UsageType, quantity: i64) -> (res: (i64, i64))
    ensures
        res == match usage_type {
            UsageType::AiTokens => (quantity, 0i64),
            UsageType::ApiCalls => (0i64, quantity),
        },
{
    match usage_type {
        UsageType::AiTokens => (quantity, 0),
        UsageType::ApiCalls => (0, quantity),
    }
}

/// The period for which usage is counted: that of the subscription, or the current month where
/// there is none. There is no such period only in the last month that there is.
pub fn usage_period(sub: &Option<Subscription>, now: Timestamp) -> (res: Option<
    (Timestamp, Timestamp),
>)
    requires
        now.ordinary(),
    ensures
        match sub {
            Some(s) => res == Some((s.current_period_start, s.current_period_end)),
            None => {
                &&& res is None <==> calendar::is_last_month(calendar::date_of(now))
                &&& res matches Some((start, end)) ==> {
                    &&& calendar::instant_at(
                        calendar::start_of_month(calendar::date_of(now)),
                    ) == Some(start)
                    &&& calendar::instant_at(
                        calendar::first_of_next_month(
                            calendar::start_of_month(calendar::date_of(now)),
                        ),
                    ) == Some(end)
                }
            },
        },
{
    match sub {
        Some(s) => Some((s.current_period_start, s.current_period_end)),
        None => match calendar::next_month_start(now) {
            Some(end) => Some((calendar::month_start(now), end)),
            None => None,
        },
    }
}

/// What was used of what may be used.
#[derive(Clone, Copy, Debug, PartialEq, Eq, Structural)]
pub struct UsageMetric {
    pub used: i64,
    pub limit: i64,
}

/// What was used in a period.
#[derive(Clone, Copy, Debug, PartialEq, Eq, Structural)]
pub struct CurrentUsage {
    pub ai_tokens: UsageMetric,
    pub api_calls: UsageMetric,
}

/// What was used in a period, of what an account may use. Usage that was not recorded is none.
pub fn current_usage(ai_used: Option<i64>, api_used: Option<i64>, limits: PlanLimits) -> (res:
    CurrentUsage)
    ensures
        res.ai_tokens.used == (match ai_used {
            Some(n) => n,
            None => 0,
        }),
        res.ai_tokens.limit == limits.ai_tokens_per_month,
        res.api_calls.used == (match api_used {
            Some(n) => n,
            None => 0,
        }),
        res.api_calls.limit == limits.api_calls_per_month,
{
    CurrentUsage {
        ai_tokens: UsageMetric {
            used: match ai_used {
                Some(n) => n,
                None => 0,
            },
            limit: limits.ai_tokens_per_month as i64,
        },
        api_calls: UsageMetric {
            used: match api_used {
                Some(n) => n,
                None => 0,
            },
            limit: limits.api_calls_per_month as i64,
        },
    }
}

/// A card at the payment service, its brand by the name that the service gives it.
#[derive(Debug)]
pub struct StripeCard {
    pub brand: String,
    pub last4: String,
    pub exp_month: i64,
    pub exp_year: i64,
}

/// What is stored of a card.
#[derive(Debug)]
pub struct CardDetails {
    pub brand: Option<String>,
    pub last4: Option<String>,
    pub exp_month: Option<i32>,
    pub exp_year: Option<i32>,
}

/// What is stored of a payment method: what is known of its card, where it is one, with the
/// brand in lowercase.
pub fn card_details(card: &Option<StripeCard>) -> (res: CardDetails)
    ensures
        match card {
            Some(c) => {
                &&& text::view_opt(res.brand) == Some(text::lowercase(c.brand@))
                &&& text::view_opt(res.last4) == Some(c.last4@)
                &&& res.exp_month == Some(c.exp_month as i32)
                &&& res.exp_year == Some(c.exp_year as i32)
            },
            None => {
                &&& res.brand is None
                &&& res.last4 is None
                &&& res.exp_month is None
                &&& res.exp_year is None
            },
        },
{
    match card {
        Some(c) => CardDetails {
            brand: Some(c.brand.as_str().to_lowercase()),
            last4: Some(c.last4.clone()),
            exp_month: Some(
                #[verifier::truncate]
                (c.exp_month as i32),
            ),
            exp_year: Some(
                #[verifier::truncate]
                (c.exp_year as i32),
            ),
        },
        None => CardDetails { brand: None, last4: None, exp_month: None, exp_year: None },
    }
}

/// What is done to add a payment method.
#[derive(Clone, Copy, Debug, PartialEq, Eq, Structural)]
pub enum PaymentStep {
    /// Attach the method to the customer at the payment service.
    Attach,
    /// Ask the payment service for the method.
    Retrieve,
    /// Take the mark of the default from all methods of the user.
    ClearDefaults,
    /// Make the method the default at the payment service.
    SetDefault,
    /// Store the method.
    Insert,
}

/// What is done to add a payment method, in order: no other method stays the default where the
/// new one becomes it.
pub fn add_payment_steps(set_default: bool) -> (res: Vec<PaymentStep>)
    ensures
        res@ == if set_default {
            seq![
                PaymentStep::Attach,
                PaymentStep::Retrieve,
                PaymentStep::ClearDefaults,
                PaymentStep::SetDefault,
                PaymentStep::Insert,
            ]
        } else {
            seq![PaymentStep::Attach, PaymentStep::Retrieve, PaymentStep::Insert]
        },
{
    let mut res: Vec<PaymentStep> = Vec::new();
    res.push(PaymentStep::Attach);
    res.push(PaymentStep::Retrieve);
    if set_default {
        res.push(PaymentStep::ClearDefaults);
        res.push(PaymentStep::SetDefault);
    }
    res.push(PaymentStep::Insert);
    proof {
        assert(res@ =~= if set_default {
            seq![
                PaymentStep::Attach,
                PaymentStep::Retrieve,
                PaymentStep::ClearDefaults,
                PaymentStep::SetDefault,
                PaymentStep::Insert,
            ]
        } else {
            seq![PaymentStep::Attach, PaymentStep::Retrieve, PaymentStep::Insert]
        });
    }
    res
}

/// The customer of a user at the payment service, who must be there.
pub fn require_customer<T>(customer: Option<T>) -> (res: ApiResult<T>)
    ensures
        match customer {
            Some(c) => res == Ok::<T, ApiError>(c),
            None => error::fails(res, ErrorKind::BadRequest, "No Stripe customer found"@),
        },
{
    match customer {
        Some(c) => Ok(c),
        None => Err(ApiError::BadRequest("No Stripe customer found".to_string())),
    }
}

/// The free tier has 100 feeds, 10 rules and 2,000 articles, and the others a hundred, fifty and
/// fifty times as much. Calls and tokens a month grow from tier to tier.
pub proof fn tiers_have_their_limits(
    free: PlanLimits,
    pro: PlanLimits,
    team: PlanLimits,
    name: &str,
    named: PlanLimits,
)
    requires
        call_ensures(get_plan_limits, (PlanTier::Free,), free),
        call_ensures(get_plan_limits, (PlanTier::Pro,), pro),
        call_ensures(get_plan_limits, (PlanTier::Team,), team),
        call_ensures(get_user_limits, (name,), named),
    ensures
        free.feeds == 100 && free.rules == 10 && free.articles == 2_000,
        pro.feeds == 100 * free.feeds && team.feeds == pro.feeds,
        pro.rules == 50 * free.rules && team.rules == pro.rules,
        pro.articles == 50 * free.articles && team.articles == pro.articles,
        free.api_calls_per_month == 1_000 && pro.api_calls_per_month == 50_000
            && team.api_calls_per_month == 200_000,
        free.ai_tokens_per_month == 10 * free.api_calls_per_month,
        pro.ai_tokens_per_month == 10 * pro.api_calls_per_month,
        team.ai_tokens_per_month == 10 * team.api_calls_per_month,
        name@ == "pro"@ ==> named == pro,
        name@ == "team"@ ==> named == team,
        name@ != "pro"@ && name@ != "team"@ ==> named == free,
{
    reveal_strlit("pro");
    reveal_strlit("team");
    assert("pro"@.len() != "team"@.len());
}

/// A new subscription is stored as the payment service has it, with the price and the product of
/// its first item and under the plan and the interval that were asked for.
pub proof fn subscription_is_stored_as_it_is(
    sub: StripeSubscription,
    plan: PlanTier,
    interval: BillingInterval,
    res: NewSubscription,
)
    requires
        call_ensures(store_subscription, (&sub, plan, interval), res),
    ensures
        res.stripe_subscription_id@ == sub.id@,
        PlanTier::named(res.plan_name@) == plan,
        res.billing_interval == interval,
        res.status == sub.status,
        res.cancel_at_period_end == sub.cancel_at_period_end,
        res.current_period_start matches Some(at) ==> at.seconds == sub.current_period_start
            && at.nanos == 0,
        res.current_period_end matches Some(at) ==> at.seconds == sub.current_period_end
            && at.nanos == 0,
        res.billing_cycle_anchor matches Some(at) ==> at.seconds == sub.billing_cycle_anchor
            && at.nanos == 0,
        res.current_period_start is None ==> !(time::FIRST_SECOND <= sub.current_period_start
            <= time::LAST_SECOND),
        res.current_period_end is None ==> !(time::FIRST_SECOND <= sub.current_period_end
            <= time::LAST_SECOND),
        res.trial_start matches Some(at) ==> sub.trial_start == Some(at.seconds),
        sub.trial_start is None ==> res.trial_start is None,
        res.trial_end matches Some(at) ==> sub.trial_end == Some(at.seconds),
        sub.trial_end is None ==> res.trial_end is None,
        sub.items@.len() > 0 && sub.items@[0].price is Some ==> {
            let price = sub.items@[0].price->0;
            &&& res.stripe_price_id@ == price.id@
            &&& price.product matches Some(product) ==> res.stripe_product_id@ == product@
            &&& price.product is None ==> res.stripe_product_id@.len() == 0
        },
        sub.items@.len() == 0 || sub.items@[0].price is None ==> res.stripe_price_id@.len() == 0
            && res.stripe_product_id@.len() == 0,
{
    models::tier_names_are_read_back(plan);
}

/// A subscription ends at once, and the account is a free one, or at the end of its period.
/// It is taken up again if and only if it was to end, and must be there for either.
pub proof fn subscription_ends_and_is_taken_up(
    at_once: Cancellation,
    later: Cancellation,
    ending: bool,
    again: ApiResult<()>,
    sub: Option<Subscription>,
    found: ApiResult<Subscription>,
)
    requires
        call_ensures(cancellation, (true,), at_once),
        call_ensures(cancellation, (false,), later),
        call_ensures(check_reactivation, (ending,), again),
        call_ensures(require_subscription, (sub,), found),
    ensures
        at_once == Cancellation::Now(PlanTier::Free),
        later == Cancellation::AtPeriodEnd,
        again is Ok <==> ending,
        again matches Err(e) ==> e@.0 == ErrorKind::BadRequest,
        found is Ok <==> sub is Some,
        found matches Ok(s) ==> sub == Some(s),
        found matches Err(e) ==> e@.0 == ErrorKind::NotFound,
{
}

/// Usage counts where it belongs, once and in full, and what was used is told beside what may be
/// used.
pub proof fn usage_counts_where_it_belongs(
    kind: UsageType,
    quantity: i64,
    deltas: (i64, i64),
    ai_used: Option<i64>,
    api_used: Option<i64>,
    limits: PlanLimits,
    told: CurrentUsage,
)
    requires
        call_ensures(usage_deltas, (kind, quantity), deltas),
        call_ensures(current_usage, (ai_used, api_used, limits), told),
    ensures
        deltas.0 + deltas.1 == quantity,
        kind == UsageType::AiTokens ==> deltas.1 == 0,
        kind == UsageType::ApiCalls ==> deltas.0 == 0,
        ai_used matches Some(n) ==> told.ai_tokens.used == n,
        ai_used is None ==> told.ai_tokens.used == 0,
        api_used matches Some(n) ==> told.api_calls.used == n,
        api_used is None ==> told.api_calls.used == 0,
        told.ai_tokens.limit == limits.ai_tokens_per_month,
        told.api_calls.limit == limits.api_calls_per_month,
{
}

/// Usage is counted for the period of the subscription where there is one, else for the month:
/// from its first midnight to that of the next month.
pub proof fn usage_is_counted_for_its_period(
    sub: Option<Subscription>,
    now: Timestamp,
    res: Option<(Timestamp, Timestamp)>,
)
    requires
        now.ordinary(),
        call_ensures(usage_period, (&sub, now), res),
    ensures
        sub matches Some(s) ==> res == Some((s.current_period_start, s.current_period_end)),
        sub is None && res is Some ==> {
            let date = calendar::date_of(now);
            let first = calendar::Calendar {
                year: date.year,
                month: date.month,
                day: 1,
                hour: 0,
                minute: 0,
                second: 0,
                nanos: 0,
            };
            let next = if date.month < 12 {
                calendar::Calendar { month: (date.month + 1) as u32, ..first }
            } else {
                calendar::Calendar { year: (date.year + 1) as i32, month: 1, ..first }
            };
            let (start, end) = res->0;
            &&& calendar::instant_at(first) == Some(start)
            &&& date.month <= 12 ==> calendar::instant_at(next) == Some(end)
        },
{
}

/// What is stored of a card is what the payment service has of it, with the brand in lowercase.
pub proof fn card_is_stored_as_it_is(card: StripeCard, res: CardDetails, none: CardDetails)
    requires
        call_ensures(card_details, (&Some(card),), res),
        call_ensures(card_details, (&None,), none),
        0 <= card.exp_month <= i32::MAX,
        0 <= card.exp_year <= i32::MAX,
    ensures
        text::view_opt(res.brand) == Some(text::lowercase(card.brand@)),
        text::view_opt(res.last4) == Some(card.last4@),
        res.exp_month is Some && res.exp_month->0 == card.exp_month,
        res.exp_year is Some && res.exp_year->0 == card.exp_year,
        none.brand is None && none.last4 is None && none.exp_month is None && none.exp_year is None,
{
}

/// A payment method is attached before it is asked for and stored last, and becomes the default
/// only where that was asked for, after every other one has lost that mark.
pub proof fn payment_method_becomes_the_only_default(set_default: bool, res: Vec<PaymentStep>)
    requires
        call_ensures(add_payment_steps, (set_default,), res),
    ensures
        res@.len() == if set_default {
            5int
        } else {
            3
        },
        res@[0] == PaymentStep::Attach,
        res@[1] == PaymentStep::Retrieve,
        res@.last() == PaymentStep::Insert,
        set_default ==> res@[2] == PaymentStep::ClearDefaults && res@[3]
            == PaymentStep::SetDefault,
{
}

/// A plan costs what was set up for it, the free one nothing, and what is billed from a day
/// behind the 28th is billed from the first of the next month on.
pub proof fn plans_are_billed_as_set_up<T>(
    prices: StripePrices,
    plan: PlanTier,
    interval: BillingInterval,
    free: &str,
    missing: &str,
    set_up: ApiResult<String>,
    price: ApiResult<String>,
    now: Timestamp,
    anchor: Option<Timestamp>,
    customer: Option<T>,
    known: ApiResult<T>,
)
    requires
        call_ensures(StripePrices::find, (&prices, plan, interval, free, missing), set_up),
        call_ensures(get_price_id, (&prices, plan, interval), price),
        call_ensures(calculate_billing_anchor, (now,), anchor),
        call_ensures(require_customer::<T>, (customer,), known),
    ensures
        price is Ok <==> set_up is Ok,
        price matches Ok(p) ==> p@ == set_up->Ok_0@,
        plan == PlanTier::Free ==> (price matches Err(e) && (e matches ApiError::BadRequest(m)
            && m@ == "Free plan has no subscription"@)),
        plan != PlanTier::Free && price is Err ==> (price->Err_0 matches ApiError::Internal(m)
            && m@ == "Price ID not configured"@),
        calendar::date_of(now).day <= 28 ==> anchor == Some(now),
        calendar::date_of(now).day > 28 && anchor is Some ==> calendar::anchor_of(
            calendar::date_of(now),
        ) is Some && calendar::instant_at(calendar::anchor_of(calendar::date_of(now))->0)
            == anchor,
        known is Ok <==> customer is Some,
        known matches Ok(c) ==> customer == Some(c),
        known matches Err(e) ==> (e matches ApiError::BadRequest(m) && m@
            == "No Stripe customer found"@),
{
}

/// Who has no subscription is told so, and so is who takes one up again that does not end.
pub proof fn missing_subscription_is_named(
    found: ApiResult<Subscription>,
    again: ApiResult<()>,
)
    requires
        call_ensures(require_subscription, (None,), found),
        call_ensures(check_reactivation, (false,), again),
    ensures
        found matches Err(e) && (e matches ApiError::NotFound(m) && m@ == "Subscription"@),
        again matches Err(e) && (e matches ApiError::BadRequest(m) && m@
            == "Subscription is not scheduled for cancellation"@),
{
}

} // verus!
