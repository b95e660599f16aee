//! Events of the payment service.

use vstd::prelude::*;
use vstd::string::*;

use crate::ids::Uuid;
use crate::routes::billing::models::SubscriptionStatus;
use crate::routes::billing::service::StripeSubscription;
use crate::text;
use crate::time;
use crate::time::Timestamp;

verus! {

/// What is to be done with a delivery.
#[derive(Clone, Copy, Debug, PartialEq, Eq, Structural)]
pub enum WebhookStep {
    /// Check the signature and read the event.
    Verify,
    /// Ask how often the event was processed.
    CountProcessed,
    /// Process the event.
    Process,
    /// Note that the event was processed.
    MarkProcessed,
    /// Answer with this status.
    Answer(u16),
}

/// What came of it.
#[derive(Clone, Copy, Debug, PartialEq, Eq, Structural)]
pub enum WebhookEvent {
    /// Whether the signature is right.
    Verified(bool),
    /// How often the event was processed, where the database could tell.
    Processed(Option<i64>),
    /// The event was processed, or processing it failed.
    Handled,
    /// It was noted that the event was processed, or noting it failed.
    Marked,
}

/// The signature of a delivery.
#[derive(Clone, Copy, Debug, PartialEq, Eq, Structural)]
pub enum SignatureHeader {
    Missing,
    Unreadable,
    Present,
}

/// What is to be done first: nothing where there is no billing, and a delivery without a
/// readable signature is refused.
pub open spec fn first_step(billing_enabled: bool, signature: SignatureHeader) -> WebhookStep {
    if !billing_enabled {
        WebhookStep::Answer(200)
    } else if signature == SignatureHeader::Present {
        WebhookStep::Verify
    } else {
        WebhookStep::Answer(400)
    }
}

/// Whether an event is what comes of a step.
pub open spec fn expects(step: WebhookStep, event: WebhookEvent) -> bool {
    match step {
        WebhookStep::Verify => event is Verified,
        WebhookStep::CountProcessed => event is Processed,
        WebhookStep::Process => event is Handled,
        WebhookStep::MarkProcessed => event is Marked,
        WebhookStep::Answer(_) => false,
    }
}

/// What is to be done next: a delivery with a wrong signature is refused, an event that was
/// processed is not processed again, and every event with a right signature is accepted, also
/// where processing it failed.
pub open spec fn next_step(event: WebhookEvent) -> WebhookStep {
    match event {
        WebhookEvent::Verified(right) => if right {
            WebhookStep::CountProcessed
        } else {
            WebhookStep::Answer(400)
        },
        WebhookEvent::Processed(count) => if count is Some && count->0 > 0 {
            WebhookStep::Answer(200)
        } else {
            WebhookStep::Process
        },
        WebhookEvent::Handled => WebhookStep::MarkProcessed,
        WebhookEvent::Marked => WebhookStep::Answer(200),
    }
}

/// What is to be done first with a delivery.
pub fn start_webhook(billing_enabled: bool, signature: SignatureHeader) -> (res: WebhookStep)
    ensures
        res == first_step(billing_enabled, signature),
{
    if !billing_enabled {
        WebhookStep::Answer(200)
    } else if signature == SignatureHeader::Present {
        WebhookStep::Verify
    } else {
        WebhookStep::Answer(400)
    }
}

/// What is to be done next with a delivery.
pub fn continue_webhook(step: WebhookStep, event: WebhookEvent) -> (res: WebhookStep)
    requires
        expects(step, event),
    ensures
        res == next_step(event),
{
    match event {
        WebhookEvent::Verified(right) => if right {
            WebhookStep::CountProcessed
        } else {
            WebhookStep::Answer(400)
        },
        WebhookEvent::Processed(count) => match count {
            Some(n) => if n > 0 {
                WebhookStep::Answer(200)
            } else {
                WebhookStep::Process
            },
            None => WebhookStep::Process,
        },
        WebhookEvent::Handled => WebhookStep::MarkProcessed,
        WebhookEvent::Marked => WebhookStep::Answer(200),
    }
}

/// Whether some events are what came of the steps of one delivery, each of the step before.
pub open spec fn is_delivery(first: WebhookStep, events: Seq<WebhookEvent>) -> bool
    decreases events.len(),
{
    if events.len() == 0 {
        true
    } else {
        expects(last_step(first, events.drop_last()), events.last()) && is_delivery(
            first,
            events.drop_last(),
        )
    }
}

/// What is to be done after some events.
pub open spec fn last_step(first: WebhookStep, events: Seq<WebhookEvent>) -> WebhookStep {
    if events.len() == 0 {
        first
    } else {
        next_step(events.last())
    }
}

/// An event is processed only after its signature was found right and it was not found to have
/// been processed before.
pub proof fn only_new_verified_events_are_processed(
    billing_enabled: bool,
    signature: SignatureHeader,
    events: Seq<WebhookEvent>,
)
    requires
        is_delivery(first_step(billing_enabled, signature), events),
        last_step(first_step(billing_enabled, signature), events) == WebhookStep::Process,
    ensures
        billing_enabled,
        signature == SignatureHeader::Present,
        events.len() == 2,
        events[0] == WebhookEvent::Verified(true),
        !(events[1] matches WebhookEvent::Processed(Some(n)) && n > 0),
{
    let first = first_step(billing_enabled, signature);
    let head = events.drop_last();
    assert(events.last() is Processed);
    assert(last_step(first, head) == WebhookStep::CountProcessed);
    assert(head.len() > 0);
    assert(head.last() is Verified);
    assert(is_delivery(first, head));
    assert(last_step(first, head.drop_last()) == WebhookStep::Verify);
    if head.drop_last().len() > 0 {
        assert(next_step(head.drop_last().last()) == WebhookStep::Verify);
    }
    assert(events[0] == head[0]);
    assert(head[0] == head.last());
    assert(events[1] == events.last());
}

/// How many steps have been taken before one.
pub open spec fn steps_before(step: WebhookStep) -> nat {
    match step {
        WebhookStep::Verify => 0,
        WebhookStep::CountProcessed => 1,
        WebhookStep::Process => 2,
        WebhookStep::MarkProcessed => 3,
        WebhookStep::Answer(_) => 4,
    }
}

/// A delivery is answered after at most four steps.
pub proof fn deliveries_are_answered(
    billing_enabled: bool,
    signature: SignatureHeader,
    events: Seq<WebhookEvent>,
)
    requires
        is_delivery(first_step(billing_enabled, signature), events),
    ensures
        events.len() <= steps_before(last_step(first_step(billing_enabled, signature), events)),
        events.len() <= 4,
    decreases events.len(),
{
    if events.len() > 0 {
        deliveries_are_answered(billing_enabled, signature, events.drop_last());
    }
}

/// A delivery whose signature is right is accepted, whatever comes of processing its event.
pub proof fn verified_deliveries_are_accepted(
    billing_enabled: bool,
    signature: SignatureHeader,
    events: Seq<WebhookEvent>,
    status: u16,
)
    requires
        is_delivery(first_step(billing_enabled, signature), events),
        events.len() > 0,
        events[0] == WebhookEvent::Verified(true),
        last_step(first_step(billing_enabled, signature), events) == WebhookStep::Answer(status),
    ensures
        status == 200,
{
    let first = first_step(billing_enabled, signature);
    if events.last() == WebhookEvent::Verified(false) {
        assert(events.len() > 1);
        let head = events.drop_last();
        assert(last_step(first, head) == WebhookStep::Verify);
        assert(next_step(head.last()) == WebhookStep::Verify);
    }
}

/// The kinds of events.
#[derive(Clone, Copy, Debug, PartialEq, Eq, Structural)]
pub enum EventKind {
    SubscriptionCreated,
    SubscriptionUpdated,
    SubscriptionDeleted,
    InvoiceCreated,
    InvoiceUpdated,
    InvoiceFinalized,
    InvoicePaid,
    InvoicePaymentFailed,
    PaymentMethodAttached,
    PaymentMethodDetached,
    CustomerUpdated,
    Other,
}

/// What an event is about.
#[derive(Clone, Copy, Debug, PartialEq, Eq, Structural)]
pub enum ObjectKind {
    Subscription,
    Invoice,
    PaymentMethod,
    Customer,
    Other,
}

/// What is done about an event.
#[derive(Clone, Copy, Debug, PartialEq, Eq, Structural)]
pub enum EventAction {
    UpdateSubscription,
    DeleteSubscription,
    UpdateInvoice,
    MarkInvoicePaid,
    StartDunning,
    ForgetPaymentMethod,
    UpdateCustomer,
    Ignore,
}

/// What is done about an event. One that is not about what its kind is about is ignored.
pub open spec fn action_for(kind: EventKind, object: ObjectKind) -> EventAction {
    match (kind, object) {
        (EventKind::SubscriptionCreated, ObjectKind::Subscription) => {
            EventAction::UpdateSubscription
        },
        (EventKind::SubscriptionUpdated, ObjectKind::Subscription) => {
            EventAction::UpdateSubscription
        },
        (EventKind::SubscriptionDeleted, ObjectKind::Subscription) => {
            EventAction::DeleteSubscription
        },
        (EventKind::InvoiceCreated, ObjectKind::Invoice) => EventAction::UpdateInvoice,
        (EventKind::InvoiceUpdated, ObjectKind::Invoice) => EventAction::UpdateInvoice,
        (EventKind::InvoiceFinalized, ObjectKind::Invoice) => EventAction::UpdateInvoice,
        (EventKind::InvoicePaid, ObjectKind::Invoice) => EventAction::MarkInvoicePaid,
        (EventKind::InvoicePaymentFailed, ObjectKind::Invoice) => EventAction::StartDunning,
        (EventKind::PaymentMethodDetached, ObjectKind::PaymentMethod) => {
            EventAction::ForgetPaymentMethod
        },
        (EventKind::CustomerUpdated, ObjectKind::Customer) => EventAction::UpdateCustomer,
        _ => EventAction::Ignore,
    }
}

/// What is done about an event.
pub fn process_event(kind: EventKind, object: ObjectKind) -> (res: EventAction)
    ensures
        res == action_for(kind, object),
{
    match (kind, object) {
        (EventKind::SubscriptionCreated, ObjectKind::Subscription) => {
            EventAction::UpdateSubscription
        },
        (EventKind::SubscriptionUpdated, ObjectKind::Subscription) => {
            EventAction::UpdateSubscription
        },
        (EventKind::SubscriptionDeleted, ObjectKind::Subscription) => {
            EventAction::DeleteSubscription
        },
        (EventKind::InvoiceCreated, ObjectKind::Invoice) => EventAction::UpdateInvoice,
        (EventKind::InvoiceUpdated, ObjectKind::Invoice) => EventAction::UpdateInvoice,
        (EventKind::InvoiceFinalized, ObjectKind::Invoice) => EventAction::UpdateInvoice,
        (EventKind::InvoicePaid, ObjectKind::Invoice) => EventAction::MarkInvoicePaid,
        (EventKind::InvoicePaymentFailed, ObjectKind::Invoice) => EventAction::StartDunning,
        (EventKind::PaymentMethodDetached, ObjectKind::PaymentMethod) => {
            EventAction::ForgetPaymentMethod
        },
        (EventKind::CustomerUpdated, ObjectKind::Customer) => EventAction::UpdateCustomer,
        _ => EventAction::Ignore,
    }
}

/// What becomes of the dunning of a subscription.
#[derive(Clone, Copy, Debug, PartialEq, Eq, Structural)]
pub enum DunningChange {
    /// It starts, unless it has started.
    Start,
    /// It ends, and the account is active again.
    Clear,
    /// It stays as it is.
    Keep,
}

/// What is changed on a subscription.
#[derive(Debug)]
pub struct SubscriptionChange {
    pub stripe_subscription_id: String,
    pub status: SubscriptionStatus,
    pub current_period_start: Option<Timestamp>,
    pub current_period_end: Option<Timestamp>,
    pub cancel_at_period_end: bool,
    pub canceled_at: Option<Timestamp>,
    pub dunning: DunningChange,
}

/// What becomes of the dunning of a subscription in a state: it starts where payment is
/// overdue, and ends where the subscription is active.
pub open spec fn dunning_change(status: SubscriptionStatus) -> DunningChange {
    match status {
        SubscriptionStatus::PastDue => DunningChange::Start,
        SubscriptionStatus::Active => DunningChange::Clear,
        _ => DunningChange::Keep,
    }
}

/// What is changed on a subscription.
pub fn handle_subscription_update(sub: &StripeSubscription) -> (res: SubscriptionChange)
    ensures
        res.stripe_subscription_id@ == sub.id@,
        res.status == sub.status,
        res.current_period_start == time::unix(sub.current_period_start),
        res.current_period_end == time::unix(sub.current_period_end),
        res.cancel_at_period_end == sub.cancel_at_period_end,
        res.canceled_at == time::optional_unix(sub.canceled_at),
        res.dunning == dunning_change(sub.status),
{
    SubscriptionChange {
        stripe_subscription_id: sub.id.clone(),
        status: sub.status,
        current_period_start: time::from_unix(sub.current_period_start),
        current_period_end: time::from_unix(sub.current_period_end),
        cancel_at_period_end: sub.cancel_at_period_end,
        canceled_at: time::from_optional_unix(sub.canceled_at),
        dunning: match sub.status {
            SubscriptionStatus::PastDue => DunningChange::Start,
            SubscriptionStatus::Active => DunningChange::Clear,
            _ => DunningChange::Keep,
        },
    }
}

/// An invoice at the payment service, its state by the name that the service gives it.
#[derive(Debug)]
pub struct StripeInvoice {
    pub id: String,
    pub number: Option<String>,
    pub customer: Option<String>,
    pub subscription: Option<String>,
    pub status: Option<String>,
    pub currency: Option<String>,
    pub amount_due: Option<i64>,
    pub amount_paid: Option<i64>,
    pub amount_remaining: Option<i64>,
    pub subtotal: Option<i64>,
    pub tax: Option<i64>,
    pub total: Option<i64>,
    pub hosted_invoice_url: Option<String>,
    pub invoice_pdf: Option<String>,
    pub period_start: Option<i64>,
    pub period_end: Option<i64>,
    pub due_date: Option<i64>,
    /// The last error in making it final, and what that error says.
    pub last_finalization_error: Option<Option<String>>,
}

/// What is stored of an invoice.
#[derive(Debug)]
pub struct InvoiceRecord {
    pub user_id: Uuid,
    pub subscription_id: Option<Uuid>,
    pub stripe_invoice_id: String,
    pub stripe_invoice_number: Option<String>,
    pub status: Option<String>,
    pub currency: String,
    pub amount_due: i64,
    pub amount_paid: i64,
    pub amount_remaining: i64,
    pub subtotal: i64,
    pub tax: Option<i64>,
    pub total: i64,
    pub hosted_invoice_url: Option<String>,
    pub invoice_pdf: Option<String>,
    pub period_start: Option<Timestamp>,
    pub period_end: Option<Timestamp>,
    pub due_date: Option<Timestamp>,
}

/// An amount, or nothing.
pub open spec fn or_zero(amount: Option<i64>) -> i64 {
    match amount {
        Some(n) => n,
        None => 0,
    }
}

fn amount_or_zero(amount: Option<i64>) -> (res: i64)
    ensures
        res == or_zero(amount),
{
    match amount {
        Some(n) => n,
        None => 0,
    }
}

/// Whether `record` is what is stored of an invoice: amounts that are missing are nothing, and
/// a currency that is missing is the euro.
pub open spec fn records_invoice(
    record: InvoiceRecord,
    invoice: StripeInvoice,
    user_id: Uuid,
    subscription_id: Option<Uuid>,
) -> bool {
    &&& record.user_id == user_id
    &&& record.subscription_id == subscription_id
    &&& record.stripe_invoice_id@ == invoice.id@
    &&& text::view_opt(record.stripe_invoice_number) == text::view_opt(invoice.number)
    &&& text::view_opt(record.status) == (match invoice.status {
        Some(status) => Some(text::lowercase(status@)),
        None => None,
    })
    &&& record.currency@ == (match invoice.currency {
        Some(currency) => currency@,
        None => "eur"@,
    })
    &&& record.amount_due == or_zero(invoice.amount_due)
    &&& record.amount_paid == or_zero(invoice.amount_paid)
    &&& record.amount_remaining == or_zero(invoice.amount_remaining)
    &&& record.subtotal == or_zero(invoice.subtotal)
    &&& record.tax == invoice.tax
    &&& record.total == or_zero(invoice.total)
    &&& text::view_opt(record.hosted_invoice_url) == text::view_opt(invoice.hosted_invoice_url)
    &&& text::view_opt(record.invoice_pdf) == text::view_opt(invoice.invoice_pdf)
    &&& record.period_start == time::optional_unix(invoice.period_start)
    &&& record.period_end == time::optional_unix(invoice.period_end)
    &&& record.due_date == time::optional_unix(invoice.due_date)
}

/// What is stored of an invoice. Nothing is stored where nobody knows whose it is.
pub fn handle_invoice_update(
    invoice: &StripeInvoice,
    user_id: Option<Uuid>,
    subscription_id: Option<Uuid>,
) -> (res: Option<InvoiceRecord>)
    ensures
        res is Some <==> invoice.customer is Some && user_id is Some,
        res matches Some(record) ==> records_invoice(
            record,
            *invoice,
            user_id->0,
            if invoice.subscription is Some {
                subscription_id
            } else {
                None
            },
        ),
{
    if invoice.customer.is_none() {
        return None;
    }
    let user_id: Uuid = match user_id {
        Some(id) => id,
        None => {
            return None;
        },
    };
    Some(
        InvoiceRecord {
            user_id,
            subscription_id: if invoice.subscription.is_some() {
                subscription_id
            } else {
                None
            },
            stripe_invoice_id: invoice.id.clone(),
            stripe_invoice_number: text::clone_opt(&invoice.number),
            status: match &invoice.status {
                Some(status) => Some(status.as_str().to_lowercase()),
                None => None,
            },
            currency: match &invoice.currency {
                Some(currency) => currency.clone(),
                None => "eur".to_string(),
            },
            amount_due: amount_or_zero(invoice.amount_due),
            amount_paid: amount_or_zero(invoice.amount_paid),
            amount_remaining: amount_or_zero(invoice.amount_remaining),
            subtotal: amount_or_zero(invoice.subtotal),
            tax: invoice.tax,
            total: amount_or_zero(invoice.total),
            hosted_invoice_url: text::clone_opt(&invoice.hosted_invoice_url),
            invoice_pdf: text::clone_opt(&invoice.invoice_pdf),
            period_start: time::from_optional_unix(invoice.period_start),
            period_end: time::from_optional_unix(invoice.period_end),
            due_date: time::from_optional_unix(invoice.due_date),
        },
    )
}

/// What is paid of an invoice that was paid.
pub fn handle_invoice_paid(invoice: &StripeInvoice) -> (res: i64)
    ensures
        res == or_zero(invoice.amount_paid),
{
    amount_or_zero(invoice.amount_paid)
}

/// The subscription whose payment failed, and why it did, where the invoice is for one.
pub fn handle_invoice_payment_failed(invoice: &StripeInvoice) -> (res: Option<(String, String)>)
    ensures
        match invoice.subscription {
            Some(sub) => {
                &&& res matches Some((id, reason))
                &&& id@ == sub@
                &&& reason@ == (match invoice.last_finalization_error {
                    Some(Some(message)) => message@,
                    _ => "Payment failed"@,
                })
            },
            None => res is None,
        },
{
    match &invoice.subscription {
        Some(sub) => {
            let reason: String = match &invoice.last_finalization_error {
                Some(error) => match error {
                    Some(message) => message.clone(),
                    None => "Payment failed".to_string(),
                },
                None => "Payment failed".to_string(),
            };
            Some((sub.clone(), reason))
        },
        None => None,
    }
}

/// Without billing a delivery is accepted unread, without a readable signature or with a wrong one
/// it is refused, and one with the right signature is processed if it was not processed before,
/// noted as processed, and accepted.
pub proof fn delivery_takes_its_course(
    off: WebhookStep,
    signature: SignatureHeader,
    on: WebhookStep,
    wrong: WebhookStep,
    right: WebhookStep,
    count: Option<i64>,
    counted: WebhookStep,
    handled: WebhookStep,
    marked: WebhookStep,
)
    requires
        call_ensures(start_webhook, (false, signature), off),
        call_ensures(start_webhook, (true, signature), on),
        call_ensures(continue_webhook, (WebhookStep::Verify, WebhookEvent::Verified(false)), wrong),
        call_ensures(continue_webhook, (WebhookStep::Verify, WebhookEvent::Verified(true)), right),
        call_ensures(
            continue_webhook,
            (WebhookStep::CountProcessed, WebhookEvent::Processed(count)),
            counted,
        ),
        call_ensures(continue_webhook, (WebhookStep::Process, WebhookEvent::Handled), handled),
        call_ensures(continue_webhook, (WebhookStep::MarkProcessed, WebhookEvent::Marked), marked),
    ensures
        off == WebhookStep::Answer(200),
        signature == SignatureHeader::Present <==> on == WebhookStep::Verify,
        signature != SignatureHeader::Present <==> on == WebhookStep::Answer(400),
        wrong == WebhookStep::Answer(400),
        right == WebhookStep::CountProcessed,
        counted == WebhookStep::Process <==> count is None || count->0 <= 0,
        counted == WebhookStep::Answer(200) <==> count is Some && count->0 >= 1,
        handled == WebhookStep::MarkProcessed,
        marked == WebhookStep::Answer(200),
{
}

/// What is about a subscription changes subscriptions, what is about an invoice invoices, and so
/// on, and an event about something else than its kind says is ignored. A failed payment, and
/// nothing else, starts dunning, and only what is deleted is deleted.
pub proof fn event_changes_what_it_is_about(
    kind: EventKind,
    object: ObjectKind,
    res: EventAction,
)
    requires
        call_ensures(process_event, (kind, object), res),
    ensures
        res == EventAction::UpdateSubscription <==> object == ObjectKind::Subscription && (kind
            == EventKind::SubscriptionCreated || kind == EventKind::SubscriptionUpdated),
        res == EventAction::DeleteSubscription <==> object == ObjectKind::Subscription && kind
            == EventKind::SubscriptionDeleted,
        res == EventAction::UpdateInvoice <==> object == ObjectKind::Invoice && (kind
            == EventKind::InvoiceCreated || kind == EventKind::InvoiceUpdated || kind
            == EventKind::InvoiceFinalized),
        res == EventAction::MarkInvoicePaid <==> object == ObjectKind::Invoice && kind
            == EventKind::InvoicePaid,
        res == EventAction::StartDunning <==> object == ObjectKind::Invoice && kind
            == EventKind::InvoicePaymentFailed,
        res == EventAction::ForgetPaymentMethod <==> object == ObjectKind::PaymentMethod && kind
            == EventKind::PaymentMethodDetached,
        res == EventAction::UpdateCustomer <==> object == ObjectKind::Customer && kind
            == EventKind::CustomerUpdated,
{
}

/// A subscription is changed to what the payment service has, and its dunning starts if and only
/// if payment is overdue and ends if and only if it is active again.
pub proof fn subscription_follows_the_payment_service(
    sub: StripeSubscription,
    res: SubscriptionChange,
)
    requires
        call_ensures(handle_subscription_update, (&sub,), res),
    ensures
        res.stripe_subscription_id@ == sub.id@,
        res.status == sub.status,
        res.cancel_at_period_end == sub.cancel_at_period_end,
        res.current_period_start matches Some(at) ==> at.seconds == sub.current_period_start,
        res.current_period_end matches Some(at) ==> at.seconds == sub.current_period_end,
        0 <= sub.current_period_start <= 253_402_300_799 ==> res.current_period_start is Some,
        0 <= sub.current_period_end <= 253_402_300_799 ==> res.current_period_end is Some,
        sub.canceled_at is None ==> res.canceled_at is None,
        res.canceled_at matches Some(at) ==> sub.canceled_at == Some(at.seconds),
        sub.canceled_at is Some && 0 <= sub.canceled_at->0 <= 253_402_300_799
            ==> res.canceled_at is Some,
        res.dunning == DunningChange::Start <==> sub.status == SubscriptionStatus::PastDue,
        res.dunning == DunningChange::Clear <==> sub.status == SubscriptionStatus::Active,
{
}

/// An invoice is stored for the user whose it is and as the payment service has it: every amount
/// in its own place and nothing for one that is missing, in euro where no currency is named, with
/// its state in lowercase and its own numbers, addresses and times. Without a customer who is
/// known nothing is stored.
pub proof fn invoice_is_stored_as_it_is(
    invoice: StripeInvoice,
    user_id: Option<Uuid>,
    subscription_id: Option<Uuid>,
    res: Option<InvoiceRecord>,
)
    requires
        call_ensures(handle_invoice_update, (&invoice, user_id, subscription_id), res),
    ensures
        res is None <==> invoice.customer is None || user_id is None,
        res matches Some(record) ==> {
            &&& user_id == Some(record.user_id)
            &&& invoice.subscription is Some ==> record.subscription_id == subscription_id
            &&& invoice.subscription is None ==> record.subscription_id is None
            &&& record.stripe_invoice_id@ == invoice.id@
            &&& text::view_opt(record.stripe_invoice_number) == text::view_opt(invoice.number)
            &&& invoice.status matches Some(s) ==> text::view_opt(record.status) == Some(
                text::lowercase(s@),
            )
            &&& invoice.status is None ==> record.status is None
            &&& invoice.currency matches Some(c) ==> record.currency@ == c@
            &&& invoice.currency is None ==> record.currency@ == "eur"@
            &&& invoice.amount_due == Some(record.amount_due) || (invoice.amount_due is None
                && record.amount_due == 0)
            &&& invoice.amount_paid == Some(record.amount_paid) || (invoice.amount_paid is None
                && record.amount_paid == 0)
            &&& invoice.amount_remaining == Some(record.amount_remaining) || (
            invoice.amount_remaining is None && record.amount_remaining == 0)
            &&& invoice.subtotal == Some(record.subtotal) || (invoice.subtotal is None
                && record.subtotal == 0)
            &&& invoice.tax == record.tax
            &&& invoice.total == Some(record.total) || (invoice.total is None && record.total == 0)
            &&& text::view_opt(record.hosted_invoice_url) == text::view_opt(
                invoice.hosted_invoice_url,
            )
            &&& text::view_opt(record.invoice_pdf) == text::view_opt(invoice.invoice_pdf)
            &&& record.period_start matches Some(at) ==> invoice.period_start == Some(at.seconds)
            &&& record.period_end matches Some(at) ==> invoice.period_end == Some(at.seconds)
            &&& record.due_date matches Some(at) ==> invoice.due_date == Some(at.seconds)
            &&& invoice.period_start matches Some(s) ==> (0 <= s <= 253_402_300_799
                ==> record.period_start is Some)
            &&& invoice.period_end matches Some(s) ==> (0 <= s <= 253_402_300_799
                ==> record.period_end is Some)
            &&& invoice.due_date matches Some(s) ==> (0 <= s <= 253_402_300_799
                ==> record.due_date is Some)
        },
{
}

/// What was paid of an invoice is what it says, and a payment that failed is that of its
/// subscription, with the reason that it gives.
pub proof fn payment_is_noted_as_it_went(
    invoice: StripeInvoice,
    paid: i64,
    failed: Option<(String, String)>,
)
    requires
        call_ensures(handle_invoice_paid, (&invoice,), paid),
        call_ensures(handle_invoice_payment_failed, (&invoice,), failed),
    ensures
        invoice.amount_paid matches Some(n) ==> paid == n,
        invoice.amount_paid is None ==> paid == 0,
        failed is Some <==> invoice.subscription is Some,
        failed matches Some((id, reason)) ==> {
            &&& id@ == invoice.subscription->0@
            &&& invoice.last_finalization_error matches Some(Some(said)) ==> reason@ == said@
            &&& !(invoice.last_finalization_error is Some
                && invoice.last_finalization_error->0 is Some) ==> reason@ == "Payment failed"@
        },
{
}

} // verus!
