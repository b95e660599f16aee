//! Accounts whose payment failed:
//!
//! - day 1: a first notice
//! - day 3: a reminder
//! - day 7: a final warning, and the account goes back to the free tier
//! - day 30: the account is suspended

use vstd::prelude::*;
use vstd::string::*;

use crate::ids;
use crate::ids::Uuid;
use crate::text;
use crate::time;
use crate::time::Timestamp;

verus! {

/// When an unpaid account loses what.
#[derive(Debug)]
pub struct DunningConfig {
    /// The days before an account goes back to the free tier.
    pub grace_period_days: i64,
    /// The days before an account is suspended.
    pub suspension_days: i64,
}

impl Default for DunningConfig {
    fn default() -> (res: Self)
        ensures
            res.grace_period_days == 7,
            res.suspension_days == 30,
    {
        DunningConfig { grace_period_days: 7, suspension_days: 30 }
    }
}

/// What came of a check of all unpaid accounts.
#[derive(Debug)]
pub struct DunningResult {
    pub users_checked: u64,
    pub emails_sent: u64,
    pub users_downgraded: u64,
    pub users_suspended: u64,
    pub errors: Vec<String>,
}

/// An unpaid subscription.
#[derive(Debug)]
pub struct DunningSubscription {
    pub id: Uuid,
    pub user_id: Uuid,
    pub plan_name: String,
    pub dunning_started_at: Timestamp,
    pub email: String,
    pub account_status: String,
}

/// What is to be done about an unpaid subscription.
#[derive(Clone, Copy, Debug, PartialEq, Eq, Structural)]
pub enum DunningAction {
    Nothing,
    SendDay1Notice,
    SendDay3Reminder,
    SendDay7Warning,
    Downgrade,
    Suspend,
}

impl DunningAction {
    /// The name of an action in the history.
    pub open spec fn name(self) -> Seq<char> {
        match self {
            DunningAction::Nothing => "none"@,
            DunningAction::SendDay1Notice => "day1_notice"@,
            DunningAction::SendDay3Reminder => "day3_reminder"@,
            DunningAction::SendDay7Warning => "day7_warning"@,
            DunningAction::Downgrade => "downgrade"@,
            DunningAction::Suspend => "suspend"@,
        }
    }

    /// How severe an action is.
    pub open spec fn severity(self) -> int {
        match self {
            DunningAction::Nothing => 0,
            DunningAction::SendDay1Notice => 1,
            DunningAction::SendDay3Reminder => 2,
            DunningAction::SendDay7Warning => 3,
            DunningAction::Downgrade => 4,
            DunningAction::Suspend => 5,
        }
    }

    /// The name of the action in the history.
    pub fn as_str(&self) -> (res: &'static str)
        ensures
            res@ == self.name(),
    {
        match self {
            DunningAction::Nothing => "none",
            DunningAction::SendDay1Notice => "day1_notice",
            DunningAction::SendDay3Reminder => "day3_reminder",
            DunningAction::SendDay7Warning => "day7_warning",
            DunningAction::Downgrade => "downgrade",
            DunningAction::Suspend => "suspend",
        }
    }
}

/// What is to be done after some days without payment.
pub open spec fn action_after(days: int, config: DunningConfig) -> DunningAction {
    if days >= config.suspension_days {
        DunningAction::Suspend
    } else if days >= config.grace_period_days {
        DunningAction::Downgrade
    } else if days >= 7 {
        DunningAction::SendDay7Warning
    } else if days >= 3 {
        DunningAction::SendDay3Reminder
    } else if days >= 1 {
        DunningAction::SendDay1Notice
    } else {
        DunningAction::Nothing
    }
}

/// What is to be done after some days without payment.
pub fn choose_action(days: i64, config: &DunningConfig) -> (res: DunningAction)
    ensures
        res == action_after(days as int, *config),
{
    if days >= config.suspension_days {
        DunningAction::Suspend
    } else if days >= config.grace_period_days {
        DunningAction::Downgrade
    } else if days >= 7 {
        DunningAction::SendDay7Warning
    } else if days >= 3 {
        DunningAction::SendDay3Reminder
    } else if days >= 1 {
        DunningAction::SendDay1Notice
    } else {
        DunningAction::Nothing
    }
}

/// What is done never gets milder as the days go by.
pub proof fn severity_never_falls(earlier: int, later: int, config: DunningConfig)
    requires
        earlier <= later,
    ensures
        action_after(earlier, config).severity() <= action_after(later, config).severity(),
{
}

/// By default an account is told on the first and the third day, goes back to the free tier
/// from the seventh and is suspended from the thirtieth.
pub proof fn default_calendar(days: int, config: DunningConfig)
    requires
        config.grace_period_days == 7,
        config.suspension_days == 30,
    ensures
        days < 1 ==> action_after(days, config) == DunningAction::Nothing,
        1 <= days < 3 ==> action_after(days, config) == DunningAction::SendDay1Notice,
        3 <= days < 7 ==> action_after(days, config) == DunningAction::SendDay3Reminder,
        7 <= days < 30 ==> action_after(days, config) == DunningAction::Downgrade,
        30 <= days ==> action_after(days, config) == DunningAction::Suspend,
{
}

/// What a check needs done next, always for the subscription at `at`.
#[derive(Clone, Copy, Debug, PartialEq, Eq, Structural)]
pub enum DunningTask {
    /// Tell whether the history holds this action for the user within the last day.
    CheckHistory { at: usize, action: DunningAction },
    /// Queue the message for this action.
    QueueEmail { at: usize, action: DunningAction },
    /// Put the account back to the free tier.
    Downgrade { at: usize },
    /// Suspend the account.
    Suspend { at: usize },
    /// Write what was done for this action to the history.
    LogAction { at: usize, action: DunningAction },
    /// Nothing: all subscriptions have been dealt with.
    Finished,
}

/// What came of a task.
#[derive(Debug)]
pub enum DunningEvent {
    /// Whether the history holds the action.
    History(bool),
    /// The task was done.
    Done,
    /// The task failed.
    Failed(String),
}

/// How far the subscription at hand has come.
#[derive(Clone, Copy, Debug, PartialEq, Eq, Structural)]
pub enum DunningStage {
    /// The history has not been asked.
    History,
    /// The history has not been asked for the final warning that comes with a downgrade.
    WarningHistory,
    /// The final warning is due.
    Warning,
    /// The final warning has been queued, but not written to the history.
    WarningLog,
    /// The action itself is due.
    Main,
    /// The action has been done, but not written to the history.
    MainLog,
}

/// A check of all unpaid subscriptions.
#[derive(Debug)]
pub struct DunningRun {
    config: DunningConfig,
    now: Timestamp,
    subscriptions: Vec<DunningSubscription>,
    at: usize,
    stage: DunningStage,
    result: DunningResult,
}

/// What is known of a check.
#[verifier::ext_equal]
pub struct DunningView {
    pub config: DunningConfig,
    pub now: Timestamp,
    pub subscriptions: Seq<DunningSubscription>,
    pub at: nat,
    pub stage: DunningStage,
    pub emails_sent: nat,
    pub users_downgraded: nat,
    pub users_suspended: nat,
    pub errors: Seq<Seq<char>>,
}

/// What is to be done about a subscription now.
pub open spec fn action_for(
    sub: DunningSubscription,
    now: Timestamp,
    config: DunningConfig,
) -> DunningAction {
    action_after(time::days_from(sub.dunning_started_at, now), config)
}

/// Whether an account is in the state that an action changes: only an account in its grace
/// period is put back, and an account that is suspended is not suspended again.
pub open spec fn applies(action: DunningAction, account_status: Seq<char>) -> bool {
    match action {
        DunningAction::Downgrade => account_status == "grace_period"@,
        DunningAction::Suspend => account_status != "suspended"@,
        _ => true,
    }
}

/// Whether the final warning comes with the downgrade: it does where no day lies between the
/// seventh and the downgrade, so that it could not come before.
pub open spec fn warns_late(config: DunningConfig) -> bool {
    config.grace_period_days <= 7
}

/// Whether an action is a message.
pub open spec fn is_email(action: DunningAction) -> bool {
    ||| action == DunningAction::SendDay1Notice
    ||| action == DunningAction::SendDay3Reminder
    ||| action == DunningAction::SendDay7Warning
}

/// What is said of a failed action.
pub open spec fn failure_text(action: DunningAction, user_id: Uuid, reason: Seq<char>) -> Seq<
    char,
> {
    (match action {
        DunningAction::Downgrade => "Failed to downgrade user "@,
        DunningAction::Suspend => "Failed to suspend user "@,
        _ => "Failed to queue email for user "@,
    }) + ids::hyphenated(user_id) + ": "@ + reason
}

impl DunningView {
    /// The first subscription from `from` on for which there is something to be done.
    pub open spec fn next_due(self, from: nat) -> nat
        decreases self.subscriptions.len() - from,
    {
        if from >= self.subscriptions.len() || action_for(
            self.subscriptions[from as int],
            self.now,
            self.config,
        ) != DunningAction::Nothing {
            from
        } else {
            self.next_due(from + 1)
        }
    }

    /// The start of a check.
    pub open spec fn start(
        config: DunningConfig,
        now: Timestamp,
        subscriptions: Seq<DunningSubscription>,
    ) -> DunningView {
        let fresh = DunningView {
            config,
            now,
            subscriptions,
            at: 0,
            stage: DunningStage::History,
            emails_sent: 0,
            users_downgraded: 0,
            users_suspended: 0,
            errors: Seq::empty(),
        };
        DunningView { at: fresh.next_due(0), ..fresh }
    }

    /// The subscription at hand.
    pub open spec fn sub(self) -> DunningSubscription {
        self.subscriptions[self.at as int]
    }

    /// What is to be done about the subscription at hand.
    pub open spec fn action(self) -> DunningAction {
        action_for(self.sub(), self.now, self.config)
    }

    /// What the check needs done next.
    pub open spec fn asks(self) -> DunningTask {
        let at = self.at as usize;
        if self.at >= self.subscriptions.len() {
            DunningTask::Finished
        } else {
            match self.stage {
                DunningStage::History => DunningTask::CheckHistory { at, action: self.action() },
                DunningStage::WarningHistory => DunningTask::CheckHistory {
                    at,
                    action: DunningAction::SendDay7Warning,
                },
                DunningStage::Warning => DunningTask::QueueEmail {
                    at,
                    action: DunningAction::SendDay7Warning,
                },
                DunningStage::WarningLog => DunningTask::LogAction {
                    at,
                    action: DunningAction::SendDay7Warning,
                },
                DunningStage::Main => match self.action() {
                    DunningAction::Downgrade => DunningTask::Downgrade { at },
                    DunningAction::Suspend => DunningTask::Suspend { at },
                    _ => DunningTask::QueueEmail { at, action: self.action() },
                },
                DunningStage::MainLog => DunningTask::LogAction { at, action: self.action() },
            }
        }
    }

    /// Whether an event is what comes of what the check asked for.
    pub open spec fn expects(self, event: DunningEvent) -> bool {
        match self.asks() {
            DunningTask::CheckHistory { .. } => event is History,
            DunningTask::LogAction { .. } => event is Done,
            DunningTask::Finished => false,
            _ => event is Done || event is Failed,
        }
    }

    /// The check with the subscription at hand dealt with.
    pub open spec fn next(self) -> DunningView {
        DunningView {
            at: self.next_due(self.at + 1),
            stage: DunningStage::History,
            ..self
        }
    }

    /// The check after an event.
    pub open spec fn after(self, event: DunningEvent) -> DunningView {
        match (self.stage, event) {
            (DunningStage::History, DunningEvent::History(found)) => if found || !applies(
                self.action(),
                self.sub().account_status@,
            ) {
                self.next()
            } else if self.action() == DunningAction::Downgrade && warns_late(self.config) {
                DunningView { stage: DunningStage::WarningHistory, ..self }
            } else {
                DunningView { stage: DunningStage::Main, ..self }
            },
            (DunningStage::WarningHistory, DunningEvent::History(found)) => DunningView {
                stage: if found {
                    DunningStage::Main
                } else {
                    DunningStage::Warning
                },
                ..self
            },
            (DunningStage::Warning, DunningEvent::Done) => DunningView {
                stage: DunningStage::WarningLog,
                emails_sent: self.emails_sent + 1,
                ..self
            },
            (DunningStage::Warning, DunningEvent::Failed(reason)) => DunningView {
                stage: DunningStage::Main,
                errors: self.errors.push(
                    failure_text(
                        DunningAction::SendDay7Warning,
                        self.sub().user_id,
                        reason@,
                    ),
                ),
                ..self
            },
            (DunningStage::WarningLog, _) => DunningView { stage: DunningStage::Main, ..self },
            (DunningStage::Main, DunningEvent::Failed(reason)) => DunningView {
                errors: self.errors.push(
                    failure_text(self.action(), self.sub().user_id, reason@),
                ),
                ..self.next()
            },
            (DunningStage::Main, _) => DunningView {
                stage: DunningStage::MainLog,
                emails_sent: self.emails_sent + if is_email(self.action()) {
                    1nat
                } else {
                    0nat
                },
                users_downgraded: self.users_downgraded + if self.action()
                    == DunningAction::Downgrade {
                    1nat
                } else {
                    0nat
                },
                users_suspended: self.users_suspended + if self.action()
                    == DunningAction::Suspend {
                    1nat
                } else {
                    0nat
                },
                ..self
            },
            _ => self.next(),
        }
    }

    /// A check does no more than one thing of each kind to a subscription, and the one at
    /// hand is one for which there is something to be done.
    pub open spec fn accounted(self) -> bool {
        let done = self.at as int;
        let warned = if self.stage == DunningStage::History || self.stage
            == DunningStage::WarningHistory || self.stage == DunningStage::Warning {
            0int
        } else {
            1int
        };
        let acted = if self.stage == DunningStage::MainLog {
            1int
        } else {
            0int
        };
        &&& self.at <= self.subscriptions.len()
        &&& self.at < self.subscriptions.len() ==> self.action() != DunningAction::Nothing
        &&& self.at == self.subscriptions.len() ==> self.stage == DunningStage::History
        &&& self.stage == DunningStage::WarningHistory || self.stage == DunningStage::Warning
            || self.stage == DunningStage::WarningLog ==> self.action()
            == DunningAction::Downgrade
        &&& self.stage == DunningStage::Main && is_email(self.action()) ==> self.emails_sent
            <= done
        &&& self.emails_sent <= done + warned
        &&& self.users_downgraded <= done + acted
        &&& self.users_suspended <= done + acted
    }
}

impl View for DunningRun {
    type V = DunningView;

    closed spec fn view(&self) -> DunningView {
        DunningView {
            config: self.config,
            now: self.now,
            subscriptions: self.subscriptions@,
            at: self.at as nat,
            stage: self.stage,
            emails_sent: self.result.emails_sent as nat,
            users_downgraded: self.result.users_downgraded as nat,
            users_suspended: self.result.users_suspended as nat,
            errors: text::views(self.result.errors@),
        }
    }
}

proof fn lemma_next_due_same(a: DunningView, b: DunningView, from: nat)
    requires
        a.subscriptions == b.subscriptions,
        a.now == b.now,
        a.config == b.config,
    ensures
        a.next_due(from) == b.next_due(from),
    decreases a.subscriptions.len() - from,
{
    if from < a.subscriptions.len() {
        lemma_next_due_same(a, b, from + 1);
    }
}

fn describe_failure(action: DunningAction, user_id: Uuid, reason: &str) -> (res: String)
    ensures
        res@ == failure_text(action, user_id, reason@),
{
    let mut res: String = match action {
        DunningAction::Downgrade => "Failed to downgrade user ".to_string(),
        DunningAction::Suspend => "Failed to suspend user ".to_string(),
        _ => "Failed to queue email for user ".to_string(),
    };
    res.append(ids::uuid_text(user_id).as_str());
    res.append(": ");
    res.append(reason);
    res
}

impl DunningRun {
    /// The times are ordinary points in time, and everything is accounted for.
    pub closed spec fn wf(self) -> bool {
        &&& self@.accounted()
        &&& self.now.ordinary()
        &&& forall|i: int|
            0 <= i < self.subscriptions@.len() ==> (
            #[trigger] self.subscriptions@[i]).dunning_started_at.ordinary()
        &&& self.result.users_checked == self.subscriptions@.len()
    }

    /// A check that is well formed is accounted for.
    pub proof fn is_accounted_for(self)
        requires
            self.wf(),
        ensures
            self@.accounted(),
    {
    }

    fn due(&self, at: usize) -> (res: DunningAction)
        requires
            at < self.subscriptions@.len(),
            self.now.ordinary(),
            self.subscriptions@[at as int].dunning_started_at.ordinary(),
        ensures
            res == action_for(self.subscriptions@[at as int], self.now, self.config),
    {
        let days: i64 = time::num_days(self.subscriptions[at].dunning_started_at, self.now);
        choose_action(days, &self.config)
    }

    fn settle(&mut self, from: usize)
        requires
            from <= old(self).subscriptions@.len(),
            old(self).now.ordinary(),
            forall|i: int|
                0 <= i < old(self).subscriptions@.len() ==> (
                #[trigger] old(self).subscriptions@[i]).dunning_started_at.ordinary(),
        ensures
            final(self)@ == (DunningView {
                at: old(self)@.next_due(from as nat),
                stage: DunningStage::History,
                ..old(self)@
            }),
            from <= final(self)@.at <= final(self)@.subscriptions.len(),
            final(self)@.at < final(self)@.subscriptions.len() ==> final(self)@.action()
                != DunningAction::Nothing,
            final(self).subscriptions == old(self).subscriptions,
            final(self).now == old(self).now,
            final(self).result == old(self).result,
    {
        let ghost before = self@;
        let mut i: usize = from;
        while i < self.subscriptions.len() && self.due(i) == DunningAction::Nothing
            invariant
                from <= i <= self.subscriptions@.len(),
                self@ == before,
                *self == *old(self),
                self.now.ordinary(),
                forall|j: int|
                    0 <= j < self.subscriptions@.len() ==> (
                    #[trigger] self.subscriptions@[j]).dunning_started_at.ordinary(),
                before.next_due(from as nat) == before.next_due(i as nat),
            decreases self.subscriptions@.len() - i,
        {
            i += 1;
        }
        self.at = i;
        self.stage = DunningStage::History;
        proof {
            assert(before.next_due(i as nat) == i as nat);
            assert(self@ =~= DunningView {
                at: before.next_due(from as nat),
                stage: DunningStage::History,
                ..before
            });
        }
    }

    /// A check of some subscriptions, with nothing done yet.
    pub fn new(
        config: DunningConfig,
        now: Timestamp,
        subscriptions: Vec<DunningSubscription>,
    ) -> (res: Self)
        requires
            now.ordinary(),
            forall|i: int|
                0 <= i < subscriptions@.len() ==> (
                #[trigger] subscriptions@[i]).dunning_started_at.ordinary(),
        ensures
            res.wf(),
            res@ == DunningView::start(config, now, subscriptions@),
    {
        let users_checked: u64 = subscriptions.len() as u64;
        let mut res: DunningRun = DunningRun {
            config,
            now,
            subscriptions,
            at: 0,
            stage: DunningStage::History,
            result: DunningResult {
                users_checked,
                emails_sent: 0,
                users_downgraded: 0,
                users_suspended: 0,
                errors: Vec::new(),
            },
        };
        let ghost fresh = res@;
        proof {
            assert(fresh.errors =~= Seq::<Seq<char>>::empty());
        }
        res.settle(0);
        res
    }

    /// What the check needs done next.
    pub fn next_task(&self) -> (res: DunningTask)
        requires
            self.wf(),
        ensures
            res == self@.asks(),
    {
        if self.at >= self.subscriptions.len() {
            return DunningTask::Finished;
        }
        let at: usize = self.at;
        proof {
            assert(self.subscriptions@[at as int].dunning_started_at.ordinary());
        }
        let action: DunningAction = self.due(at);
        match self.stage {
            DunningStage::History => DunningTask::CheckHistory { at, action },
            DunningStage::WarningHistory => DunningTask::CheckHistory {
                at,
                action: DunningAction::SendDay7Warning,
            },
            DunningStage::Warning => DunningTask::QueueEmail {
                at,
                action: DunningAction::SendDay7Warning,
            },
            DunningStage::WarningLog => DunningTask::LogAction {
                at,
                action: DunningAction::SendDay7Warning,
            },
            DunningStage::Main => match action {
                DunningAction::Downgrade => DunningTask::Downgrade { at },
                DunningAction::Suspend => DunningTask::Suspend { at },
                _ => DunningTask::QueueEmail { at, action },
            },
            DunningStage::MainLog => DunningTask::LogAction { at, action },
        }
    }

    fn note(&mut self, action: DunningAction, reason: &str)
        requires
            old(self).at < old(self).subscriptions@.len(),
        ensures
            final(self)@ == (DunningView {
                errors: old(self)@.errors.push(
                    failure_text(action, old(self)@.sub().user_id, reason@),
                ),
                ..old(self)@
            }),
            final(self).subscriptions == old(self).subscriptions,
            final(self).now == old(self).now,
            final(self).at == old(self).at,
            final(self).result.users_checked == old(self).result.users_checked,
    {
        let ghost before = self@;
        let ghost errors = self.result.errors@;
        let text: String = describe_failure(
            action,
            self.subscriptions[self.at].user_id,
            reason,
        );
        self.result.errors.push(text);
        proof {
            assert(text::views(self.result.errors@) =~= text::views(errors).push(text@));
            assert(self@ =~= DunningView {
                errors: before.errors.push(
                    failure_text(action, before.sub().user_id, reason@),
                ),
                ..before
            });
        }
    }

    /// Takes in what came of a task.
    pub fn handle(&mut self, event: DunningEvent)
        requires
            old(self).wf(),
            old(self)@.expects(event),
        ensures
            final(self).wf(),
            final(self)@ == old(self)@.after(event),
    {
        let at: usize = self.at;
        proof {
            assert(at < self.subscriptions.len());
            assert(self.subscriptions@[at as int].dunning_started_at.ordinary());
        }
        let action: DunningAction = self.due(at);
        match (self.stage, event) {
            (DunningStage::History, DunningEvent::History(found)) => {
                let status: &str = self.subscriptions[at].account_status.as_str();
                let applicable: bool = match action {
                    DunningAction::Downgrade => text::same(status, "grace_period"),
                    DunningAction::Suspend => !text::same(status, "suspended"),
                    _ => true,
                };
                if found || !applicable {
                    self.settle(at + 1);
                } else if action == DunningAction::Downgrade && self.config.grace_period_days <= 7 {
                    self.stage = DunningStage::WarningHistory;
                } else {
                    self.stage = DunningStage::Main;
                }
            },
            (DunningStage::WarningHistory, DunningEvent::History(found)) => {
                if found {
                    self.stage = DunningStage::Main;
                } else {
                    self.stage = DunningStage::Warning;
                }
            },
            (DunningStage::Warning, DunningEvent::Done) => {
                self.stage = DunningStage::WarningLog;
                self.result.emails_sent = self.result.emails_sent + 1;
            },
            (DunningStage::Warning, DunningEvent::Failed(reason)) => {
                self.note(DunningAction::SendDay7Warning, reason.as_str());
                self.stage = DunningStage::Main;
            },
            (DunningStage::WarningLog, _) => {
                self.stage = DunningStage::Main;
            },
            (DunningStage::Main, DunningEvent::Failed(reason)) => {
                self.note(action, reason.as_str());
                proof {
                    lemma_next_due_same(self@, old(self)@, (at + 1) as nat);
                }
                self.settle(at + 1);
            },
            (DunningStage::Main, _) => {
                self.stage = DunningStage::MainLog;
                match action {
                    DunningAction::Downgrade => {
                        self.result.users_downgraded = self.result.users_downgraded + 1;
                    },
                    DunningAction::Suspend => {
                        self.result.users_suspended = self.result.users_suspended + 1;
                    },
                    _ => {
                        self.result.emails_sent = self.result.emails_sent + 1;
                    },
                }
            },
            _ => {
                self.settle(at + 1);
            },
        }
        proof {
            assert(self@ =~= old(self)@.after(event));
        }
    }

    /// The subscription at a place.
    pub fn subscription(&self, at: usize) -> (res: &DunningSubscription)
        requires
            at < self@.subscriptions.len(),
        ensures
            *res == self@.subscriptions[at as int],
    {
        &self.subscriptions[at]
    }

    /// What came of the check.
    pub fn into_result(self) -> (res: DunningResult)
        requires
            self.wf(),
        ensures
            res.users_checked == self@.subscriptions.len(),
            res.emails_sent == self@.emails_sent,
            res.users_downgraded == self@.users_downgraded,
            res.users_suspended == self@.users_suspended,
            text::views(res.errors@) == self@.errors,
    {
        self.result
    }
}

/// A check sends at most one message for each subscription, and downgrades and suspends each
/// at most once.
pub proof fn check_acts_at_most_once(run: DunningView)
    requires
        run.accounted(),
        run.asks() is Finished,
    ensures
        run.emails_sent <= run.subscriptions.len(),
        run.users_downgraded <= run.subscriptions.len(),
        run.users_suspended <= run.subscriptions.len(),
{
}

/// Nothing is done about a subscription for which the history already holds the action, and a
/// final warning that the history holds is not sent again.
pub proof fn repeated_action_is_skipped(run: DunningView)
    requires
        run.accounted(),
        run.asks() is CheckHistory,
    ensures
        run.asks()->CheckHistory_action == run.action() ==> run.after(DunningEvent::History(true))
            == run.next(),
        run.asks()->CheckHistory_action != run.action() ==> run.after(DunningEvent::History(true))
            == (DunningView { stage: DunningStage::Main, ..run }),
{
}

/// A downgrade by default comes with a final warning: unless the history holds it, the warning
/// is sent first.
pub proof fn downgrade_comes_with_a_warning(run: DunningView)
    requires
        run.accounted(),
        warns_late(run.config),
        run.stage == DunningStage::History,
        run.asks() is CheckHistory,
        run.action() == DunningAction::Downgrade,
        applies(run.action(), run.sub().account_status@),
    ensures
        ({
            let asked = run.after(DunningEvent::History(false));
            let warned = asked.after(DunningEvent::History(false));
            &&& asked.asks() == DunningTask::CheckHistory {
                at: run.at as usize,
                action: DunningAction::SendDay7Warning,
            }
            &&& warned.asks() == DunningTask::QueueEmail {
                at: run.at as usize,
                action: DunningAction::SendDay7Warning,
            }
            &&& warned.after(DunningEvent::Done).after(DunningEvent::Done).asks()
                == DunningTask::Downgrade { at: run.at as usize }
        }),
{
}

/// What the history calls an action that was done.
pub fn history_kind(action: DunningAction) -> (res: &'static str)
    ensures
        res@ == match action {
            DunningAction::Downgrade => "downgrade"@,
            DunningAction::Suspend => "suspend"@,
            _ => "email_sent"@,
        },
{
    match action {
        DunningAction::Downgrade => "downgrade",
        DunningAction::Suspend => "suspend",
        _ => "email_sent",
    }
}

/// What is to be done depends on how many days an account has not paid for, and on nothing else:
/// it is suspended from the suspension day on, goes back to the free tier from the end of its
/// grace period, and before that gets the last of the messages that is due.
pub proof fn action_follows_the_calendar(days: int, config: DunningConfig)
    ensures
        action_after(days, config) == DunningAction::Suspend <==> config.suspension_days <= days,
        action_after(days, config) == DunningAction::Downgrade <==> config.grace_period_days
            <= days < config.suspension_days,
        days < config.suspension_days && days < config.grace_period_days ==> {
            &&& action_after(days, config) == DunningAction::SendDay7Warning <==> 7 <= days
            &&& action_after(days, config) == DunningAction::SendDay3Reminder <==> 3 <= days < 7
            &&& action_after(days, config) == DunningAction::SendDay1Notice <==> 1 <= days < 3
            &&& action_after(days, config) == DunningAction::Nothing <==> days < 1
        },
{
}

/// The days that count for a subscription are the whole days since its payment first failed.
pub proof fn days_count_from_the_first_failure(
    sub: DunningSubscription,
    now: Timestamp,
    config: DunningConfig,
    days: int,
)
    requires
        0 <= days,
        sub.dunning_started_at.at() + days * 86_400_000_000_000 <= now.at(),
        now.at() < sub.dunning_started_at.at() + (days + 1) * 86_400_000_000_000,
    ensures
        action_for(sub, now, config) == action_after(days, config),
{
    let span = now.at() - sub.dunning_started_at.at();
    assert(span / 86_400_000_000_000 == days) by (nonlinear_arith)
        requires
            days * 86_400_000_000_000 <= span < (days + 1) * 86_400_000_000_000,
    ;
    assert(time::days_from(sub.dunning_started_at, now) == days);
}

/// Whether a check has turned to the subscription at hand, and knows that there is something to
/// be done about it and nothing else.
pub open spec fn has_turned(run: DunningView) -> bool {
    run.stage == DunningStage::History && run.at < run.subscriptions.len() <= usize::MAX
}

/// Every account that is not suspended yet is suspended once it is due, whatever else its state
/// is: an account that was put back to the free tier and is active since is suspended too.
/// One that is suspended is left as it is.
pub proof fn due_account_is_suspended_once(run: DunningView)
    requires
        has_turned(run),
        run.action() == DunningAction::Suspend,
    ensures
        run.sub().account_status@ != "suspended"@ ==> run.after(DunningEvent::History(false)).asks()
            == (DunningTask::Suspend { at: run.at as usize }),
        run.sub().account_status@ == "active"@ ==> run.after(DunningEvent::History(false)).asks()
            == (DunningTask::Suspend { at: run.at as usize }),
        run.sub().account_status@ == "suspended"@ ==> run.after(DunningEvent::History(false)).at
            > run.at,
        run.after(DunningEvent::History(true)).at > run.at,
{
    reveal_strlit("active");
    reveal_strlit("suspended");
    assert("active"@.len() != "suspended"@.len());
    due_subscriptions_come_in_order(run, run.at + 1);
}

/// An account in its grace period goes back to the free tier once that is due, behind a final
/// warning where none could come before. An account in any other state is left as it is.
pub proof fn due_account_is_downgraded(run: DunningView)
    requires
        has_turned(run),
        run.action() == DunningAction::Downgrade,
    ensures
        ({
            let at = run.at as usize;
            let asked = run.after(DunningEvent::History(false));
            let graced = run.sub().account_status@ == "grace_period"@;
            &&& graced && run.config.grace_period_days > 7 ==> asked.asks()
                == (DunningTask::Downgrade { at })
            &&& graced && run.config.grace_period_days <= 7 ==> {
                let warning = DunningAction::SendDay7Warning;
                let due = asked.after(DunningEvent::History(false));
                &&& asked.asks() == (DunningTask::CheckHistory { at, action: warning })
                &&& asked.after(DunningEvent::History(true)).asks() == (DunningTask::Downgrade {
                    at,
                })
                &&& due.asks() == (DunningTask::QueueEmail { at, action: warning })
                &&& due.after(DunningEvent::Done).asks() == (DunningTask::LogAction {
                    at,
                    action: warning,
                })
                &&& due.after(DunningEvent::Done).emails_sent == run.emails_sent + 1
                &&& due.after(DunningEvent::Done).after(DunningEvent::Done).asks() == (
                DunningTask::Downgrade { at })
            }
            &&& !graced ==> asked.at > run.at
            &&& run.after(DunningEvent::History(true)).at > run.at
        }),
{
    due_subscriptions_come_in_order(run, run.at + 1);
}

/// A message that is due is queued, whatever the state of the account is, unless the history
/// holds it.
pub proof fn due_message_is_queued(run: DunningView)
    requires
        has_turned(run),
        run.action() == DunningAction::SendDay1Notice || run.action()
            == DunningAction::SendDay3Reminder || run.action() == DunningAction::SendDay7Warning,
    ensures
        run.after(DunningEvent::History(false)).asks() == (DunningTask::QueueEmail {
            at: run.at as usize,
            action: run.action(),
        }),
        run.after(DunningEvent::History(true)).at > run.at,
{
    due_subscriptions_come_in_order(run, run.at + 1);
}

/// What was done is counted once, where it belongs, and written to the history before the check
/// goes on.
pub proof fn done_action_is_counted_and_logged(run: DunningView)
    requires
        run.stage == DunningStage::Main,
        run.at < run.subscriptions.len() <= usize::MAX,
        run.action() != DunningAction::Nothing,
    ensures
        ({
            let done = run.after(DunningEvent::Done);
            &&& done.asks() == (DunningTask::LogAction {
                at: run.at as usize,
                action: run.action(),
            })
            &&& done.errors == run.errors
            &&& done.users_suspended == run.users_suspended + if run.action()
                == DunningAction::Suspend {
                1nat
            } else {
                0
            }
            &&& done.users_downgraded == run.users_downgraded + if run.action()
                == DunningAction::Downgrade {
                1nat
            } else {
                0
            }
            &&& done.emails_sent == run.emails_sent + if run.action() == DunningAction::Suspend
                || run.action() == DunningAction::Downgrade {
                0nat
            } else {
                1
            }
            &&& done.after(DunningEvent::Done).at > run.at
            &&& done.after(DunningEvent::Done).errors == run.errors
            &&& done.after(DunningEvent::Done).emails_sent == done.emails_sent
            &&& done.after(DunningEvent::Done).users_downgraded == done.users_downgraded
            &&& done.after(DunningEvent::Done).users_suspended == done.users_suspended
        }),
{
    due_subscriptions_come_in_order(run.after(DunningEvent::Done), run.at + 1);
}

/// What fails is counted nowhere but among the errors, where it says for whom and why, and the
/// check goes on: with the action where a warning failed, else with the next subscription.
pub proof fn failure_is_noted_and_passed_over(run: DunningView, reason: String)
    requires
        run.stage == DunningStage::Main || run.stage == DunningStage::Warning,
        run.at < run.subscriptions.len() <= usize::MAX,
    ensures
        ({
            let failed = run.after(DunningEvent::Failed(reason));
            let said = failed.errors.last();
            &&& failed.errors.len() == run.errors.len() + 1
            &&& failed.errors.drop_last() == run.errors
            &&& text::ends_with(said, ids::hyphenated(run.sub().user_id) + ": "@ + reason@)
            &&& run.stage == DunningStage::Main && run.action() == DunningAction::Suspend
                ==> text::begins_with(said, "Failed to suspend user "@)
            &&& run.stage == DunningStage::Main && run.action() == DunningAction::Downgrade
                ==> text::begins_with(said, "Failed to downgrade user "@)
            &&& run.stage == DunningStage::Warning || run.action()
                == DunningAction::SendDay1Notice || run.action()
                == DunningAction::SendDay3Reminder || run.action()
                == DunningAction::SendDay7Warning ==> text::begins_with(
                said,
                "Failed to queue email for user "@,
            )
            &&& failed.emails_sent == run.emails_sent
            &&& failed.users_downgraded == run.users_downgraded
            &&& failed.users_suspended == run.users_suspended
            &&& run.stage == DunningStage::Warning ==> failed.at == run.at && failed.stage
                == DunningStage::Main
            &&& run.stage == DunningStage::Main ==> failed.at > run.at
        }),
{
    let action = if run.stage == DunningStage::Warning {
        DunningAction::SendDay7Warning
    } else {
        run.action()
    };
    let said = failure_text(action, run.sub().user_id, reason@);
    let end = ids::hyphenated(run.sub().user_id) + ": "@ + reason@;
    let start = match action {
        DunningAction::Downgrade => "Failed to downgrade user "@,
        DunningAction::Suspend => "Failed to suspend user "@,
        _ => "Failed to queue email for user "@,
    };
    assert(said =~= start + end);
    assert(said.take(start.len() as int) =~= start);
    assert(said.skip(said.len() - end.len()) =~= end);
    let failed = run.after(DunningEvent::Failed(reason));
    assert(failed.errors =~= run.errors.push(said));
    assert(failed.errors.drop_last() =~= run.errors);
    due_subscriptions_come_in_order(run, run.at + 1);
}

/// A check passes over no subscription about which there is something to be done: it goes on to
/// the next one about which there is.
pub proof fn due_subscriptions_come_in_order(run: DunningView, from: nat)
    requires
        from <= run.subscriptions.len(),
    ensures
        from <= run.next_due(from) <= run.subscriptions.len(),
        forall|j: int|
            from <= j < run.next_due(from) ==> action_for(
                #[trigger] run.subscriptions[j],
                run.now,
                run.config,
            ) == DunningAction::Nothing,
        run.next_due(from) < run.subscriptions.len() ==> action_for(
            run.subscriptions[run.next_due(from) as int],
            run.now,
            run.config,
        ) != DunningAction::Nothing,
        run.next().at == run.next_due(run.at + 1),
        run.next().stage == DunningStage::History,
    decreases run.subscriptions.len() - from,
{
    if from < run.subscriptions.len() && action_for(
        run.subscriptions[from as int],
        run.now,
        run.config,
    ) == DunningAction::Nothing {
        due_subscriptions_come_in_order(run, from + 1);
    }
}

/// A check begins with the first subscription about which there is something to be done.
pub proof fn check_begins_with_the_first_due(
    config: DunningConfig,
    now: Timestamp,
    subscriptions: Seq<DunningSubscription>,
)
    ensures
        ({
            let start = DunningView::start(config, now, subscriptions);
            &&& start.subscriptions == subscriptions
            &&& start.stage == DunningStage::History
            &&& start.emails_sent == 0 && start.users_downgraded == 0 && start.users_suspended == 0
            &&& start.errors.len() == 0
            &&& start.at <= subscriptions.len()
            &&& forall|j: int|
                0 <= j < start.at ==> action_for(#[trigger] subscriptions[j], now, config)
                    == DunningAction::Nothing
            &&& start.at < subscriptions.len() ==> start.action() != DunningAction::Nothing
        }),
{
    let start = DunningView::start(config, now, subscriptions);
    let fresh = DunningView { at: 0, ..start };
    due_subscriptions_come_in_order(fresh, 0);
}

/// The names of the actions in the history differ, so that none is taken for another.
pub proof fn action_names_differ(a: DunningAction, b: DunningAction)
    ensures
        a.name() == b.name() ==> a == b,
{
    reveal_strlit("none");
    reveal_strlit("day1_notice");
    reveal_strlit("day3_reminder");
    reveal_strlit("day7_warning");
    reveal_strlit("downgrade");
    reveal_strlit("suspend");
    assert("none"@.len() == 4 && "day1_notice"@.len() == 11 && "day3_reminder"@.len() == 13);
    assert("day7_warning"@.len() == 12 && "downgrade"@.len() == 9 && "suspend"@.len() == 7);
}

/// What is chosen after some days without payment follows the calendar, and is written to the
/// history as what it is.
pub proof fn chosen_action_follows_the_calendar(
    days: i64,
    config: DunningConfig,
    res: DunningAction,
    action: DunningAction,
    kind: &'static str,
)
    requires
        call_ensures(choose_action, (days, &config), res),
        call_ensures(history_kind, (action,), kind),
    ensures
        res == DunningAction::Suspend <==> days >= config.suspension_days,
        res == DunningAction::Downgrade <==> days < config.suspension_days && days
            >= config.grace_period_days,
        days < config.suspension_days && days < config.grace_period_days ==> {
            &&& res == DunningAction::SendDay7Warning <==> days > 6
            &&& res == DunningAction::SendDay3Reminder <==> 2 < days < 7
            &&& res == DunningAction::SendDay1Notice <==> 0 < days < 3
            &&& res == DunningAction::Nothing <==> days < 1
        },
        kind@ == "suspend"@ <==> action == DunningAction::Suspend,
        kind@ == "downgrade"@ <==> action == DunningAction::Downgrade,
        kind@ == "email_sent"@ <==> action != DunningAction::Suspend && action
            != DunningAction::Downgrade,
{
    reveal_strlit("suspend");
    reveal_strlit("downgrade");
    reveal_strlit("email_sent");
    assert("suspend"@.len() == 7 && "downgrade"@.len() == 9 && "email_sent"@.len() == 10);
}

/// What a check asks for next is about the subscription at hand, and nothing is asked for once
/// all have been dealt with.
pub proof fn check_asks_about_the_one_at_hand(
    run: DunningRun,
    task: DunningTask,
    at: usize,
    shown: &DunningSubscription,
)
    requires
        call_ensures(DunningRun::next_task, (&run,), task),
        run@.subscriptions.len() <= usize::MAX,
        call_ensures(DunningRun::subscription, (&run, at), shown),
    ensures
        task is Finished <==> run@.at >= run@.subscriptions.len(),
        run@.at < run@.subscriptions.len() ==> {
            &&& run@.stage == DunningStage::History ==> task == (DunningTask::CheckHistory {
                at: run@.at as usize,
                action: run@.action(),
            })
            &&& run@.stage == DunningStage::Warning ==> task == (DunningTask::QueueEmail {
                at: run@.at as usize,
                action: DunningAction::SendDay7Warning,
            })
            &&& run@.stage == DunningStage::WarningLog ==> task == (DunningTask::LogAction {
                at: run@.at as usize,
                action: DunningAction::SendDay7Warning,
            })
            &&& run@.stage == DunningStage::MainLog ==> task == (DunningTask::LogAction {
                at: run@.at as usize,
                action: run@.action(),
            })
            &&& run@.stage == DunningStage::Main ==> {
                &&& run@.action() == DunningAction::Suspend <==> task is Suspend
                &&& run@.action() == DunningAction::Downgrade <==> task is Downgrade
                &&& task is QueueEmail ==> task == (DunningTask::QueueEmail {
                    at: run@.at as usize,
                    action: run@.action(),
                })
            }
        },
        *shown == run@.subscriptions[at as int],
{
}

/// An account that is due to be suspended is suspended next unless it is already or the history
/// says so, whatever its state is, and one that was suspended is counted.
pub proof fn check_suspends_due_accounts(
    run: &mut DunningRun,
    task: DunningTask,
    done: &mut DunningRun,
    next: DunningTask,
)
    requires
        has_turned(old(run)@),
        old(run)@.action() == DunningAction::Suspend,
        call_ensures(DunningRun::handle, (run, DunningEvent::History(false)), ()),
        call_ensures(DunningRun::next_task, (&*final(run),), task),
        old(done)@.stage == DunningStage::Main,
        old(done)@.at < old(done)@.subscriptions.len() <= usize::MAX,
        old(done)@.action() == DunningAction::Suspend,
        call_ensures(DunningRun::handle, (done, DunningEvent::Done), ()),
        call_ensures(DunningRun::next_task, (&*final(done),), next),
    ensures
        old(run)@.subscriptions[old(run)@.at as int].account_status@ != "suspended"@ ==> task == (
        DunningTask::Suspend { at: old(run)@.at as usize }),
        old(run)@.subscriptions[old(run)@.at as int].account_status@ == "suspended"@
            ==> final(run)@.at > old(run)@.at,
        next == (DunningTask::LogAction {
            at: old(done)@.at as usize,
            action: DunningAction::Suspend,
        }),
        final(done)@.users_suspended == old(done)@.users_suspended + 1,
        final(done)@.users_downgraded == old(done)@.users_downgraded,
        final(done)@.emails_sent == old(done)@.emails_sent,
{
    due_account_is_suspended_once(old(run)@);
    done_action_is_counted_and_logged(old(done)@);
}

/// An action is written to the history under its own name.
pub proof fn actions_are_named_as_they_are(action: DunningAction, name: &'static str)
    requires
        call_ensures(DunningAction::as_str, (&action,), name),
    ensures
        action == DunningAction::Nothing ==> name@ == "none"@,
        action == DunningAction::SendDay1Notice ==> name@ == "day1_notice"@,
        action == DunningAction::SendDay3Reminder ==> name@ == "day3_reminder"@,
        action == DunningAction::SendDay7Warning ==> name@ == "day7_warning"@,
        action == DunningAction::Downgrade ==> name@ == "downgrade"@,
        action == DunningAction::Suspend ==> name@ == "suspend"@,
{
}

} // verus!
