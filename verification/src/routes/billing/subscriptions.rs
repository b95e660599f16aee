//! Requests about the subscription of a user.

use vstd::prelude::*;
use vstd::string::*;

use crate::error;
use crate::error::{ApiError, ApiResult, ErrorKind};
use crate::routes::billing::models;
use crate::routes::billing::models::{BillingInterval, PlanTier, StripePrices, SubscriptionStatus};

verus! {

/// An answer.
#[derive(Debug)]
pub struct DataResponse<T> {
    pub data: T,
}

/// The payment service, which must be set up.
pub fn require_billing<T>(stripe: Option<T>) -> (res: ApiResult<T>)
    ensures
        match stripe {
            Some(s) => res == Ok::<T, ApiError>(s),
            None => error::fails(res, ErrorKind::BadRequest, "Billing not enabled"@),
        },
{
    match stripe {
        Some(s) => Ok(s),
        None => Err(ApiError::BadRequest("Billing not enabled".to_string())),
    }
}

/// A user has at most one subscription that is not canceled.
pub fn check_no_subscription(existing: Option<SubscriptionStatus>) -> (res: ApiResult<()>)
    ensures
        existing is None || existing == Some(SubscriptionStatus::Canceled) ==> res is Ok,
        existing is Some && existing != Some(SubscriptionStatus::Canceled) ==> error::fails(
            res,
            ErrorKind::Conflict,
            "User already has an active subscription"@,
        ),
{
    match existing {
        Some(status) => if status != SubscriptionStatus::Canceled {
            Err(ApiError::Conflict("User already has an active subscription".to_string()))
        } else {
            Ok(())
        },
        None => Ok(()),
    }
}

/// The price for a checkout: a plan and an interval must be named, and the plan must have a
/// price.
pub fn checkout_price(
    plan: Option<PlanTier>,
    interval: Option<BillingInterval>,
    prices: &StripePrices,
) -> (res: ApiResult<String>)
    ensures
        match (plan, interval) {
            (None, _) => error::fails(res, ErrorKind::BadRequest, "Plan is required"@),
            (Some(_), None) => error::fails(res, ErrorKind::BadRequest, "Interval is required"@),
            (Some(plan), Some(interval)) => if plan == PlanTier::Free {
                error::fails(res, ErrorKind::BadRequest, "Cannot subscribe to free plan"@)
            } else {
                match models::price_of(*prices, plan, interval) {
                    Some(price) => res matches Ok(p) && p@ == price,
                    None => error::fails(res, ErrorKind::Internal, "Price not configured"@),
                }
            },
        },
{
    let plan: PlanTier = match plan {
        Some(plan) => plan,
        None => {
            return Err(ApiError::BadRequest("Plan is required".to_string()));
        },
    };
    let interval: BillingInterval = match interval {
        Some(interval) => interval,
        None => {
            return Err(ApiError::BadRequest("Interval is required".to_string()));
        },
    };
    prices.find(plan, interval, "Cannot subscribe to free plan", "Price not configured")
}

/// The address of a checkout, which the payment service must have given.
pub fn require_checkout_url(url: Option<String>) -> (res: ApiResult<String>)
    ensures
        match url {
            Some(url) => res == Ok::<String, ApiError>(url),
            None => error::fails(res, ErrorKind::Internal, "No checkout URL returned"@),
        },
{
    match url {
        Some(url) => Ok(url),
        None => Err(ApiError::Internal("No checkout URL returned".to_string())),
    }
}

/// A user who has a subscription that is not canceled gets no other one, and a checkout needs a
/// plan and an interval and costs what that plan costs.
pub proof fn checkout_is_for_a_plan_with_a_price(
    existing: Option<SubscriptionStatus>,
    free: ApiResult<()>,
    plan: Option<PlanTier>,
    interval: Option<BillingInterval>,
    prices: StripePrices,
    price: ApiResult<String>,
    url: Option<String>,
    address: ApiResult<String>,
)
    requires
        call_ensures(check_no_subscription, (existing,), free),
        call_ensures(checkout_price, (plan, interval, &prices), price),
        call_ensures(require_checkout_url, (url,), address),
    ensures
        free is Ok <==> existing is None || existing->0 == SubscriptionStatus::Canceled,
        free matches Err(e) ==> e@.0 == ErrorKind::Conflict,
        price is Ok <==> plan is Some && interval is Some && plan->0 != PlanTier::Free
            && models::price_of(prices, plan->0, interval->0) is Some,
        price matches Ok(p) ==> Some(p@) == models::price_of(prices, plan->0, interval->0),
        plan is None || interval is None || plan == Some(PlanTier::Free) ==> price is Err
            && price->Err_0@.0 == ErrorKind::BadRequest,
        url matches Some(u) ==> address is Ok && address->Ok_0@ == u@,
        url is None ==> address is Err && address->Err_0@.0 == ErrorKind::Internal,
{
}

/// A checkout without a plan or without an interval is told what is missing, and nothing is
/// billed where billing is not enabled.
pub proof fn missing_choice_is_named<T>(
    plan: Option<PlanTier>,
    interval: Option<BillingInterval>,
    prices: StripePrices,
    price: ApiResult<String>,
    stripe: Option<T>,
    enabled: ApiResult<T>,
)
    requires
        call_ensures(checkout_price, (plan, interval, &prices), price),
        call_ensures(require_billing::<T>, (stripe,), enabled),
    ensures
        plan is None ==> (price matches Err(e) && (e matches ApiError::BadRequest(m) && m@
            == "Plan is required"@)),
        enabled is Ok <==> stripe is Some,
        enabled matches Ok(s) ==> stripe == Some(s),
        enabled matches Err(e) ==> (e matches ApiError::BadRequest(m) && m@
            == "Billing not enabled"@),
{
}

/// A checkout that cannot go on is told why.
pub proof fn refused_checkout_is_told_why(
    plan: PlanTier,
    interval: BillingInterval,
    prices: StripePrices,
    unset: ApiResult<String>,
    price: ApiResult<String>,
    existing: Option<SubscriptionStatus>,
    again: ApiResult<()>,
    nowhere: ApiResult<String>,
)
    requires
        call_ensures(checkout_price, (Some(plan), None, &prices), unset),
        call_ensures(checkout_price, (Some(plan), Some(interval), &prices), price),
        call_ensures(check_no_subscription, (existing,), again),
        call_ensures(require_checkout_url, (None,), nowhere),
    ensures
        unset matches Err(e) && (e matches ApiError::BadRequest(m) && m@
            == "Interval is required"@),
        plan == PlanTier::Free ==> (price matches Err(e) && (e matches ApiError::BadRequest(m)
            && m@ == "Cannot subscribe to free plan"@)),
        plan != PlanTier::Free && price is Err ==> (price->Err_0 matches ApiError::Internal(m)
            && m@ == "Price not configured"@),
        again matches Err(e) ==> (e matches ApiError::Conflict(m) && m@
            == "User already has an active subscription"@),
        nowhere matches Err(e) && (e matches ApiError::Internal(m) && m@
            == "No checkout URL returned"@),
{
}

} // verus!
