use feedmind::calendar::{anchor_date, first_midnight, next_month, Calendar};
use feedmind::error::ApiError;
use feedmind::routes::billing::invoices::{
    default_limit, list_response, require_pdf, InvoiceListParams,
};
use feedmind::routes::billing::models::{
    BillingInterval, PlanTier, StripePrices, Subscription, SubscriptionStatus, UsageType,
};
use feedmind::routes::billing::service::{
    add_payment_steps, calculate_billing_anchor, cancellation, card_details, check_reactivation,
    current_usage, get_plan_limits, get_price_id, get_user_limits, require_customer,
    require_subscription, store_subscription, usage_deltas, usage_period, Cancellation,
    PaymentStep, StripeCard, StripeItem, StripePrice, StripeSubscription,
};
use feedmind::routes::billing::subscriptions::{
    check_no_subscription, checkout_price, require_billing, require_checkout_url,
};
use feedmind::routes::billing::usage::{default_days, UsageHistoryParams};
use feedmind::routes::billing::webhooks::{
    continue_webhook, handle_invoice_paid, handle_invoice_payment_failed, handle_invoice_update,
    handle_subscription_update, process_event, start_webhook, DunningChange, EventAction,
    EventKind, ObjectKind, SignatureHeader, StripeInvoice, WebhookEvent, WebhookStep,
};
use feedmind::time::Timestamp;
use feedmind::worker::handlers::dunning::{
    choose_action, history_kind, DunningAction, DunningConfig, DunningEvent, DunningRun,
    DunningSubscription, DunningTask,
};

fn at(seconds: i64) -> Timestamp {
    Timestamp { seconds, nanos: 0 }
}

fn prices() -> StripePrices {
    StripePrices {
        pro_monthly: Some("price_pm".to_string()),
        pro_annual: Some("price_pa".to_string()),
        team_monthly: Some("price_tm".to_string()),
        team_annual: None,
    }
}

#[test]
fn limits_of_the_tiers() {
    let free = get_plan_limits(PlanTier::Free);
    assert_eq!((free.feeds, free.rules, free.articles), (100, 10, 2_000));
    assert_eq!((free.api_calls_per_month, free.ai_tokens_per_month), (1_000, 10_000));
    let pro = get_plan_limits(PlanTier::Pro);
    assert_eq!((pro.feeds, pro.rules, pro.articles), (10_000, 500, 100_000));
    assert_eq!((pro.api_calls_per_month, pro.ai_tokens_per_month), (50_000, 500_000));
    let team = get_user_limits("team");
    assert_eq!((team.api_calls_per_month, team.ai_tokens_per_month), (200_000, 2_000_000));
    assert_eq!(get_user_limits("pro_trial"), free);
}

#[test]
fn tier_names_are_read_back() {
    for tier in [PlanTier::Free, PlanTier::Pro, PlanTier::Team] {
        assert_eq!(PlanTier::parse(tier.as_str()), tier);
    }
    assert_eq!(PlanTier::parse("gold"), PlanTier::Free);
}

#[test]
fn names_of_states_and_intervals() {
    let all = [
        (SubscriptionStatus::Active, "active"),
        (SubscriptionStatus::Trialing, "trialing"),
        (SubscriptionStatus::PastDue, "past_due"),
        (SubscriptionStatus::Canceled, "canceled"),
        (SubscriptionStatus::Incomplete, "incomplete"),
        (SubscriptionStatus::IncompleteExpired, "incomplete_expired"),
        (SubscriptionStatus::Paused, "paused"),
        (SubscriptionStatus::Unpaid, "unpaid"),
    ];
    for (status, name) in all {
        assert_eq!(status.as_str(), name);
        assert_eq!(SubscriptionStatus::parse(name), Some(status));
    }
    assert_eq!(SubscriptionStatus::parse("Active"), None);
    assert_eq!(BillingInterval::Month.as_str(), "month");
    assert_eq!(BillingInterval::Year.as_str(), "year");
    assert_eq!(UsageType::AiTokens.as_str(), "ai_tokens");
    assert_eq!(UsageType::ApiCalls.as_str(), "api_call");
}

#[test]
fn prices_of_the_plans() {
    let price = |plan, interval| get_price_id(&prices(), plan, interval);
    assert!(matches!(price(PlanTier::Pro, BillingInterval::Month), Ok(p) if p == "price_pm"));
    assert!(matches!(price(PlanTier::Pro, BillingInterval::Year), Ok(p) if p == "price_pa"));
    assert!(matches!(price(PlanTier::Team, BillingInterval::Month), Ok(p) if p == "price_tm"));
    assert!(matches!(
        price(PlanTier::Team, BillingInterval::Year),
        Err(ApiError::Internal(m)) if m == "Price ID not configured"
    ));
    assert!(matches!(
        price(PlanTier::Free, BillingInterval::Year),
        Err(ApiError::BadRequest(m)) if m == "Free plan has no subscription"
    ));
}

#[test]
fn checkout_needs_a_plan_and_an_interval() {
    let price = |plan, interval| checkout_price(plan, interval, &prices());
    assert!(matches!(price(None, None), Err(ApiError::BadRequest(m)) if m == "Plan is required"));
    assert!(matches!(
        price(Some(PlanTier::Pro), None),
        Err(ApiError::BadRequest(m)) if m == "Interval is required"
    ));
    assert!(matches!(
        price(Some(PlanTier::Free), Some(BillingInterval::Month)),
        Err(ApiError::BadRequest(m)) if m == "Cannot subscribe to free plan"
    ));
    assert!(matches!(
        price(Some(PlanTier::Team), Some(BillingInterval::Year)),
        Err(ApiError::Internal(m)) if m == "Price not configured"
    ));
    assert!(matches!(
        price(Some(PlanTier::Team), Some(BillingInterval::Month)),
        Ok(p) if p == "price_tm"
    ));
    assert!(matches!(require_checkout_url(None), Err(ApiError::Internal(_))));
    assert!(matches!(require_checkout_url(Some("u".to_string())), Ok(u) if u == "u"));
}

#[test]
fn billing_anchors_are_days_of_every_month() {
    // 2026-01-31T10:20:30Z goes to 2026-02-01T10:20:30Z.
    assert_eq!(calculate_billing_anchor(at(1_769_854_830)), Some(at(1_769_941_230)));
    // 2026-12-30T00:02:03Z goes to 2027-01-01T00:02:03Z.
    assert_eq!(calculate_billing_anchor(at(1_798_588_923)), Some(at(1_798_761_723)));
    // 2026-03-04T05:06:07Z stays.
    assert_eq!(calculate_billing_anchor(at(1_772_600_767)), Some(at(1_772_600_767)));
}

#[test]
fn months_of_the_calendar() {
    let date = Calendar {
        year: 2026,
        month: 12,
        day: 31,
        hour: 23,
        minute: 59,
        second: 58,
        nanos: 7,
    };
    let next = next_month(date);
    assert_eq!((next.year, next.month, next.day, next.hour, next.nanos), (2027, 1, 1, 23, 7));
    let start = first_midnight(date);
    assert_eq!((start.year, start.month, start.day, start.hour, start.nanos), (2026, 12, 1, 0, 0));
    assert_eq!(anchor_date(date), Some(next));
    let early = Calendar { day: 28, ..date };
    assert_eq!(anchor_date(early), Some(early));
    let last = Calendar { year: 262_142, ..date };
    assert_eq!(anchor_date(last), None);
}

fn subscription() -> Subscription {
    Subscription {
        id: 1,
        stripe_subscription_id: "sub_1".to_string(),
        plan_name: "pro".to_string(),
        status: SubscriptionStatus::Active,
        current_period_start: at(10),
        current_period_end: at(20),
        cancel_at_period_end: false,
    }
}

#[test]
fn usage_is_counted_by_period() {
    assert_eq!(usage_period(&Some(subscription()), at(15)), Some((at(10), at(20))));
    assert_eq!(
        usage_period(&None, at(1_772_600_767)),
        Some((at(1_772_323_200), at(1_775_001_600)))
    );
    let usage = current_usage(Some(5), None, get_plan_limits(PlanTier::Pro));
    assert_eq!((usage.ai_tokens.used, usage.ai_tokens.limit), (5, 500_000));
    assert_eq!((usage.api_calls.used, usage.api_calls.limit), (0, 50_000));
    assert_eq!(usage_deltas(UsageType::AiTokens, 7), (7, 0));
    assert_eq!(usage_deltas(UsageType::ApiCalls, 7), (0, 7));
    assert_eq!(default_days(), 30);
    assert_eq!(UsageHistoryParams { days: 365 }.shown_days(), 90);
    assert_eq!(UsageHistoryParams { days: 3 }.shown_days(), 3);
}

fn stripe_subscription(status: SubscriptionStatus) -> StripeSubscription {
    StripeSubscription {
        id: "sub_9".to_string(),
        status,
        items: vec![StripeItem {
            price: Some(StripePrice {
                id: "price_1".to_string(),
                product: Some("prod_1".to_string()),
            }),
        }],
        current_period_start: 100,
        current_period_end: 200,
        billing_cycle_anchor: i64::MAX,
        trial_start: None,
        trial_end: Some(150),
        canceled_at: Some(i64::MIN),
        cancel_at_period_end: true,
    }
}

#[test]
fn new_subscriptions_are_stored() {
    let stored = store_subscription(
        &stripe_subscription(SubscriptionStatus::Trialing),
        PlanTier::Team,
        BillingInterval::Year,
    );
    assert_eq!(stored.stripe_subscription_id, "sub_9");
    assert_eq!(stored.stripe_price_id, "price_1");
    assert_eq!(stored.stripe_product_id, "prod_1");
    assert_eq!(stored.plan_name, "team");
    assert_eq!(stored.status, SubscriptionStatus::Trialing);
    assert_eq!(stored.current_period_start, Some(at(100)));
    assert_eq!(stored.billing_cycle_anchor, None);
    assert_eq!(stored.trial_start, None);
    assert_eq!(stored.trial_end, Some(at(150)));
    assert!(stored.cancel_at_period_end);
    let mut bare = stripe_subscription(SubscriptionStatus::Active);
    bare.items = vec![];
    let stored = store_subscription(&bare, PlanTier::Pro, BillingInterval::Month);
    assert_eq!(stored.stripe_price_id, "");
    assert_eq!(stored.stripe_product_id, "");
}

#[test]
fn subscriptions_end_and_come_back() {
    assert_eq!(cancellation(true), Cancellation::Now(PlanTier::Free));
    assert_eq!(cancellation(false), Cancellation::AtPeriodEnd);
    assert!(check_reactivation(true).is_ok());
    assert!(matches!(check_reactivation(false), Err(ApiError::BadRequest(_))));
    assert!(matches!(require_subscription(None), Err(ApiError::NotFound(m)) if m == "Subscription"));
    assert!(require_subscription(Some(subscription())).is_ok());
    assert!(check_no_subscription(None).is_ok());
    assert!(check_no_subscription(Some(SubscriptionStatus::Canceled)).is_ok());
    assert!(matches!(
        check_no_subscription(Some(SubscriptionStatus::PastDue)),
        Err(ApiError::Conflict(_))
    ));
    assert!(matches!(require_billing::<u8>(None), Err(ApiError::BadRequest(_))));
    assert!(matches!(require_billing(Some(3)), Ok(3)));
    assert!(matches!(require_customer::<u8>(None), Err(ApiError::BadRequest(_))));
}

#[test]
fn cards_and_payment_methods() {
    let card = StripeCard {
        brand: "MasterCard".to_string(),
        last4: "4242".to_string(),
        exp_month: 12,
        exp_year: 2030,
    };
    let details = card_details(&Some(card));
    assert_eq!(details.brand.as_deref(), Some("mastercard"));
    assert_eq!(details.last4.as_deref(), Some("4242"));
    assert_eq!((details.exp_month, details.exp_year), (Some(12), Some(2030)));
    assert_eq!(card_details(&None).brand, None);
    assert_eq!(
        add_payment_steps(true),
        vec![
            PaymentStep::Attach,
            PaymentStep::Retrieve,
            PaymentStep::ClearDefaults,
            PaymentStep::SetDefault,
            PaymentStep::Insert,
        ]
    );
    assert_eq!(
        add_payment_steps(false),
        vec![PaymentStep::Attach, PaymentStep::Retrieve, PaymentStep::Insert]
    );
}

#[test]
fn invoices_are_listed() {
    assert_eq!(default_limit(), 20);
    assert_eq!(InvoiceListParams { limit: 1_000 }.page_limit(), 100);
    assert_eq!(InvoiceListParams { limit: 7 }.page_limit(), 7);
    assert_eq!(list_response(vec![1, 2, 3]).meta.total, 3);
    assert!(matches!(require_pdf(None), Err(ApiError::NotFound(_))));
    assert!(matches!(require_pdf(Some("u".to_string())), Ok(u) if u == "u"));
}

fn run_webhook(first: WebhookStep, events: &[WebhookEvent]) -> Vec<WebhookStep> {
    let mut steps = vec![first];
    for event in events {
        let last = *steps.last().expect("there is a first step");
        steps.push(continue_webhook(last, *event));
    }
    steps
}

#[test]
fn deliveries_without_a_signature_are_refused() {
    assert_eq!(start_webhook(false, SignatureHeader::Missing), WebhookStep::Answer(200));
    assert_eq!(start_webhook(true, SignatureHeader::Missing), WebhookStep::Answer(400));
    assert_eq!(start_webhook(true, SignatureHeader::Unreadable), WebhookStep::Answer(400));
    let first = start_webhook(true, SignatureHeader::Present);
    assert_eq!(
        run_webhook(first, &[WebhookEvent::Verified(false)]),
        vec![WebhookStep::Verify, WebhookStep::Answer(400)]
    );
}

#[test]
fn events_are_processed_once() {
    let first = start_webhook(true, SignatureHeader::Present);
    assert_eq!(
        run_webhook(first, &[WebhookEvent::Verified(true), WebhookEvent::Processed(Some(1))]),
        vec![WebhookStep::Verify, WebhookStep::CountProcessed, WebhookStep::Answer(200)]
    );
    for count in [Some(0), None] {
        assert_eq!(
            run_webhook(
                first,
                &[
                    WebhookEvent::Verified(true),
                    WebhookEvent::Processed(count),
                    WebhookEvent::Handled,
                    WebhookEvent::Marked,
                ]
            ),
            vec![
                WebhookStep::Verify,
                WebhookStep::CountProcessed,
                WebhookStep::Process,
                WebhookStep::MarkProcessed,
                WebhookStep::Answer(200),
            ]
        );
    }
}

#[test]
fn events_lead_to_actions() {
    let cases = [
        (EventKind::SubscriptionCreated, ObjectKind::Subscription, EventAction::UpdateSubscription),
        (EventKind::SubscriptionUpdated, ObjectKind::Subscription, EventAction::UpdateSubscription),
        (EventKind::SubscriptionDeleted, ObjectKind::Subscription, EventAction::DeleteSubscription),
        (EventKind::InvoiceCreated, ObjectKind::Invoice, EventAction::UpdateInvoice),
        (EventKind::InvoiceUpdated, ObjectKind::Invoice, EventAction::UpdateInvoice),
        (EventKind::InvoiceFinalized, ObjectKind::Invoice, EventAction::UpdateInvoice),
        (EventKind::InvoicePaid, ObjectKind::Invoice, EventAction::MarkInvoicePaid),
        (EventKind::InvoicePaymentFailed, ObjectKind::Invoice, EventAction::StartDunning),
        (EventKind::PaymentMethodAttached, ObjectKind::PaymentMethod, EventAction::Ignore),
        (
            EventKind::PaymentMethodDetached,
            ObjectKind::PaymentMethod,
            EventAction::ForgetPaymentMethod,
        ),
        (EventKind::CustomerUpdated, ObjectKind::Customer, EventAction::UpdateCustomer),
        (EventKind::InvoicePaid, ObjectKind::Subscription, EventAction::Ignore),
        (EventKind::Other, ObjectKind::Invoice, EventAction::Ignore),
    ];
    for (kind, object, action) in cases {
        assert_eq!(process_event(kind, object), action);
    }
}

#[test]
fn subscription_events_start_and_end_dunning() {
    let change = |status| handle_subscription_update(&stripe_subscription(status));
    assert_eq!(change(SubscriptionStatus::PastDue).dunning, DunningChange::Start);
    assert_eq!(change(SubscriptionStatus::Active).dunning, DunningChange::Clear);
    assert_eq!(change(SubscriptionStatus::Unpaid).dunning, DunningChange::Keep);
    let change = change(SubscriptionStatus::Canceled);
    assert_eq!(change.stripe_subscription_id, "sub_9");
    assert_eq!(change.current_period_end, Some(at(200)));
    assert_eq!(change.canceled_at, None);
}

fn invoice() -> StripeInvoice {
    StripeInvoice {
        id: "in_1".to_string(),
        number: None,
        customer: Some("cus_1".to_string()),
        subscription: Some("sub_1".to_string()),
        status: Some("Open".to_string()),
        currency: None,
        amount_due: Some(100),
        amount_paid: None,
        amount_remaining: Some(100),
        subtotal: None,
        tax: None,
        total: Some(100),
        hosted_invoice_url: None,
        invoice_pdf: Some("pdf".to_string()),
        period_start: Some(5),
        period_end: None,
        due_date: None,
        last_finalization_error: None,
    }
}

#[test]
fn invoices_are_recorded_for_known_customers() {
    let record = handle_invoice_update(&invoice(), Some(7), Some(8)).expect("the user is known");
    assert_eq!((record.user_id, record.subscription_id), (7, Some(8)));
    assert_eq!(record.status.as_deref(), Some("open"));
    assert_eq!(record.currency, "eur");
    assert_eq!((record.amount_due, record.amount_paid, record.total), (100, 0, 100));
    assert_eq!(record.period_start, Some(at(5)));
    assert!(handle_invoice_update(&invoice(), None, Some(8)).is_none());
    let mut orphan = invoice();
    orphan.customer = None;
    assert!(handle_invoice_update(&orphan, Some(7), None).is_none());
    let mut single = invoice();
    single.subscription = None;
    let record = handle_invoice_update(&single, Some(7), Some(8)).expect("the user is known");
    assert_eq!(record.subscription_id, None);
    assert_eq!(handle_invoice_paid(&invoice()), 0);
}

#[test]
fn failed_payments_say_why() {
    let mut failed = invoice();
    assert_eq!(
        handle_invoice_payment_failed(&failed),
        Some(("sub_1".to_string(), "Payment failed".to_string()))
    );
    failed.last_finalization_error = Some(Some("card declined".to_string()));
    assert_eq!(
        handle_invoice_payment_failed(&failed),
        Some(("sub_1".to_string(), "card declined".to_string()))
    );
    failed.subscription = None;
    assert_eq!(handle_invoice_payment_failed(&failed), None);
}

const DAY: i64 = 86_400;

fn unpaid(id: u128, days: i64, status: &str) -> DunningSubscription {
    DunningSubscription {
        id,
        user_id: id + 100,
        plan_name: "pro".to_string(),
        dunning_started_at: at(100 * DAY - days * DAY),
        email: "user@example.test".to_string(),
        account_status: status.to_string(),
    }
}

#[test]
fn severity_never_falls() {
    let config = DunningConfig::default();
    let chosen: Vec<DunningAction> =
        [0, 1, 2, 3, 6, 7, 29, 30].iter().map(|days| choose_action(*days, &config)).collect();
    assert_eq!(
        chosen,
        vec![
            DunningAction::Nothing,
            DunningAction::SendDay1Notice,
            DunningAction::SendDay1Notice,
            DunningAction::SendDay3Reminder,
            DunningAction::SendDay3Reminder,
            DunningAction::Downgrade,
            DunningAction::Downgrade,
            DunningAction::Suspend,
        ]
    );
    let patient = DunningConfig { grace_period_days: 14, suspension_days: 30 };
    assert_eq!(choose_action(7, &patient), DunningAction::SendDay7Warning);
}

#[test]
fn check_of_unpaid_accounts() {
    let subscriptions = vec![
        unpaid(1, 0, "active"),
        unpaid(2, 1, "grace_period"),
        unpaid(3, 8, "grace_period"),
        unpaid(4, 8, "active"),
        unpaid(5, 40, "grace_period"),
        unpaid(6, 40, "suspended"),
        unpaid(7, 3, "grace_period"),
    ];
    let mut run = DunningRun::new(DunningConfig::default(), at(100 * DAY), subscriptions);
    let mut done: Vec<String> = Vec::new();
    loop {
        let task = run.next_task();
        let event = match task {
            DunningTask::CheckHistory { at, action } => {
                DunningEvent::History(at == 6 && action == DunningAction::SendDay3Reminder)
            }
            DunningTask::QueueEmail { at, action } => {
                done.push(format!("email {} {}", run.subscription(at).id, action.as_str()));
                DunningEvent::Done
            }
            DunningTask::Downgrade { at } => {
                done.push(format!("downgrade {}", run.subscription(at).id));
                DunningEvent::Done
            }
            DunningTask::Suspend { at } => {
                done.push(format!("suspend {}", run.subscription(at).id));
                DunningEvent::Failed("locked".to_string())
            }
            DunningTask::LogAction { at, action } => {
                done.push(format!("log {} {}", run.subscription(at).id, history_kind(action)));
                DunningEvent::Done
            }
            DunningTask::Finished => break,
        };
        run.handle(event);
    }
    assert_eq!(
        done,
        vec![
            "email 2 day1_notice",
            "log 2 email_sent",
            "email 3 day7_warning",
            "log 3 email_sent",
            "downgrade 3",
            "log 3 downgrade",
            "suspend 5",
        ]
    );
    let result = run.into_result();
    assert_eq!(result.users_checked, 7);
    assert_eq!((result.emails_sent, result.users_downgraded, result.users_suspended), (2, 1, 0));
    assert_eq!(
        result.errors,
        vec!["Failed to suspend user 00000000-0000-0000-0000-000000000069: locked"]
    );
}

#[test]
fn warning_in_the_history_is_not_sent_again() {
    let subscriptions = vec![unpaid(3, 8, "grace_period")];
    let mut run = DunningRun::new(DunningConfig::default(), at(100 * DAY), subscriptions);
    run.handle(DunningEvent::History(false));
    assert_eq!(
        run.next_task(),
        DunningTask::CheckHistory { at: 0, action: DunningAction::SendDay7Warning }
    );
    run.handle(DunningEvent::History(true));
    assert_eq!(run.next_task(), DunningTask::Downgrade { at: 0 });
}

#[test]
fn later_downgrade_has_had_its_warning() {
    let config = DunningConfig { grace_period_days: 14, suspension_days: 30 };
    let mut run = DunningRun::new(config, at(100 * DAY), vec![unpaid(3, 15, "grace_period")]);
    run.handle(DunningEvent::History(false));
    assert_eq!(run.next_task(), DunningTask::Downgrade { at: 0 });
    run.handle(DunningEvent::Failed("x".to_string()));
    assert_eq!(run.next_task(), DunningTask::Finished);
}

#[test]
fn finished_check_counts_what_was_due() {
    let mut twin = unpaid(12, 8, "grace_period");
    twin.user_id = unpaid(3, 8, "grace_period").user_id;
    let subscriptions = vec![
        unpaid(1, 0, "active"),
        unpaid(2, 1, "grace_period"),
        unpaid(3, 8, "grace_period"),
        twin,
        unpaid(4, 9, "active"),
        unpaid(5, 9, "grace_period"),
        unpaid(6, 30, "grace_period"),
        unpaid(7, 31, "suspended"),
    ];
    let warned = subscriptions[5].user_id;
    let mut history = vec![(warned, DunningAction::SendDay7Warning)];
    let mut run = DunningRun::new(DunningConfig::default(), at(100 * DAY), subscriptions);
    loop {
        let event = match run.next_task() {
            DunningTask::CheckHistory { at, action } => {
                DunningEvent::History(history.contains(&(run.subscription(at).user_id, action)))
            }
            DunningTask::LogAction { at, action } => {
                history.push((run.subscription(at).user_id, action));
                DunningEvent::Done
            }
            DunningTask::Finished => break,
            _ => DunningEvent::Done,
        };
        run.handle(event);
    }
    let result = run.into_result();
    assert_eq!(result.users_checked, 8);
    assert_eq!(result.emails_sent, 2);
    assert_eq!(result.users_downgraded, 2);
    assert_eq!(result.users_suspended, 1);
    assert!(result.errors.is_empty());
}
