//! What a check of all unpaid accounts comes to, where nothing that it does fails.

use vstd::prelude::*;

use crate::ids::Uuid;
use crate::lists;
use crate::time::Timestamp;
use crate::worker::handlers::dunning;
use crate::worker::handlers::dunning::{
    DunningAction, DunningConfig, DunningEvent, DunningStage, DunningSubscription, DunningTask,
    DunningView,
};

verus! {

/// What the history holds for the last day: the actions that were done, each with its user.
pub type History = Set<(Uuid, DunningAction)>;

/// What a check has come to: the history, and the counts.
#[verifier::ext_equal]
pub struct Tally {
    pub history: History,
    pub emails_sent: nat,
    pub users_downgraded: nat,
    pub users_suspended: nat,
}

impl Tally {
    /// A check that has done nothing.
    pub open spec fn start(history: History) -> Tally {
        Tally { history, emails_sent: 0, users_downgraded: 0, users_suspended: 0 }
    }

    /// Whether an action about a subscription is done: there is something to be done, the
    /// history does not hold it, and the account is in the state that it changes.
    pub open spec fn is_done(self, sub: DunningSubscription, action: DunningAction) -> bool {
        &&& action != DunningAction::Nothing
        &&& !self.history.contains((sub.user_id, action))
        &&& dunning::applies(action, sub.account_status@)
    }

    /// Whether the final warning comes with the downgrade of a subscription.
    pub open spec fn warns(
        self,
        sub: DunningSubscription,
        action: DunningAction,
        config: DunningConfig,
    ) -> bool {
        &&& action == DunningAction::Downgrade
        &&& dunning::warns_late(config)
        &&& !self.history.contains((sub.user_id, DunningAction::SendDay7Warning))
    }

    /// What the check has come to after the final warning to a user.
    pub open spec fn with_warning(self, user_id: Uuid) -> Tally {
        Tally {
            history: self.history.insert((user_id, DunningAction::SendDay7Warning)),
            emails_sent: self.emails_sent + 1,
            ..self
        }
    }

    /// What the check has come to after an action about a user.
    pub open spec fn with_action(self, user_id: Uuid, action: DunningAction) -> Tally {
        Tally {
            history: self.history.insert((user_id, action)),
            emails_sent: self.emails_sent + lists::one_if(dunning::is_email(action)),
            users_downgraded: self.users_downgraded + lists::one_if(action == DunningAction::Downgrade),
            users_suspended: self.users_suspended + lists::one_if(action == DunningAction::Suspend),
        }
    }

    /// What the check has come to with the warning that comes with an action.
    pub open spec fn warned(
        self,
        sub: DunningSubscription,
        action: DunningAction,
        config: DunningConfig,
    ) -> Tally {
        if self.warns(sub, action, config) {
            self.with_warning(sub.user_id)
        } else {
            self
        }
    }

    /// What the check has come to after one more subscription.
    pub open spec fn after(
        self,
        sub: DunningSubscription,
        now: Timestamp,
        config: DunningConfig,
    ) -> Tally {
        let action = dunning::action_for(sub, now, config);
        if self.is_done(sub, action) {
            self.warned(sub, action, config).with_action(sub.user_id, action)
        } else {
            self
        }
    }

    /// What the check has come to after the first `n` of some subscriptions.
    pub open spec fn after_all(
        self,
        subscriptions: Seq<DunningSubscription>,
        n: nat,
        now: Timestamp,
        config: DunningConfig,
    ) -> Tally
        decreases n,
    {
        if n == 0 {
            self
        } else {
            self.after_all(subscriptions, (n - 1) as nat, now, config).after(
                subscriptions[n - 1],
                now,
                config,
            )
        }
    }
}

/// Whether an event comes of a task where nothing fails: the history tells what it holds, and
/// everything else is done.
pub open spec fn succeeds(
    history: History,
    subscriptions: Seq<DunningSubscription>,
    task: DunningTask,
    event: DunningEvent,
) -> bool {
    match task {
        DunningTask::CheckHistory { at, action } => event == DunningEvent::History(
            history.contains((subscriptions[at as int].user_id, action)),
        ),
        DunningTask::Finished => false,
        _ => event == DunningEvent::Done,
    }
}

/// What the history holds after a task.
pub open spec fn history_after(
    history: History,
    subscriptions: Seq<DunningSubscription>,
    task: DunningTask,
) -> History {
    match task {
        DunningTask::LogAction { at, action } => history.insert(
            (subscriptions[at as int].user_id, action),
        ),
        _ => history,
    }
}

/// Whether a check takes this course, with nothing that fails.
pub open spec fn runs_smoothly(
    run: DunningView,
    history: History,
    events: Seq<DunningEvent>,
) -> bool
    decreases events.len(),
{
    events.len() == 0 || {
        &&& succeeds(history, run.subscriptions, run.asks(), events[0])
        &&& runs_smoothly(
            run.after(events[0]),
            history_after(history, run.subscriptions, run.asks()),
            events.drop_first(),
        )
    }
}

/// A check after some events.
pub open spec fn run_after(run: DunningView, events: Seq<DunningEvent>) -> DunningView
    decreases events.len(),
{
    if events.len() == 0 {
        run
    } else {
        run_after(run.after(events[0]), events.drop_first())
    }
}

/// Whether the counts of a check are those of a tally.
spec fn has_counts(run: DunningView, tally: Tally) -> bool {
    &&& run.emails_sent == tally.emails_sent
    &&& run.users_downgraded == tally.users_downgraded
    &&& run.users_suspended == tally.users_suspended
    &&& run.errors.len() == 0
}

/// What the subscriptions before the one at hand have come to.
spec fn tally_at(run: DunningView, first: History, at: nat) -> Tally {
    Tally::start(first).after_all(run.subscriptions, at, run.now, run.config)
}

/// What holds of a check all along: what has been done is what the tally says, as far as the
/// subscription at hand has come.
spec fn is_on_course(run: DunningView, first: History, history: History) -> bool {
    let settled = tally_at(run, first, run.at);
    let action = run.action();
    let warned = settled.warned(run.sub(), action, run.config);
    &&& run.at <= run.subscriptions.len() <= usize::MAX
    &&& run.at < run.subscriptions.len() ==> action != DunningAction::Nothing
    &&& run.at == run.subscriptions.len() ==> run.stage == DunningStage::History
    &&& run.stage != DunningStage::History ==> settled.is_done(run.sub(), action)
    &&& match run.stage {
        DunningStage::History => has_counts(run, settled) && history == settled.history,
        DunningStage::WarningHistory => has_counts(run, settled) && history == settled.history
            && action == DunningAction::Downgrade && dunning::warns_late(run.config),
        DunningStage::Warning => has_counts(run, settled) && history == settled.history
            && settled.warns(run.sub(), action, run.config),
        DunningStage::WarningLog => has_counts(run, warned) && history == settled.history
            && settled.warns(run.sub(), action, run.config),
        DunningStage::Main => has_counts(run, warned) && history == warned.history,
        DunningStage::MainLog => has_counts(run, warned.with_action(run.sub().user_id, action))
            && history == warned.history,
    }
}

proof fn lemma_skips_what_is_not_due(run: DunningView, first: History, from: nat)
    requires
        from <= run.subscriptions.len(),
    ensures
        from <= run.next_due(from) <= run.subscriptions.len(),
        run.next_due(from) < run.subscriptions.len() ==> dunning::action_for(
            run.subscriptions[run.next_due(from) as int],
            run.now,
            run.config,
        ) != DunningAction::Nothing,
        tally_at(run, first, run.next_due(from)) == tally_at(run, first, from),
    decreases run.subscriptions.len() - from,
{
    if from < run.subscriptions.len() && dunning::action_for(
        run.subscriptions[from as int],
        run.now,
        run.config,
    ) == DunningAction::Nothing {
        lemma_skips_what_is_not_due(run, first, from + 1);
        assert(tally_at(run, first, from + 1) == tally_at(run, first, from).after(
            run.subscriptions[from as int],
            run.now,
            run.config,
        ));
    }
}

proof fn lemma_stays_on_course(
    run: DunningView,
    first: History,
    history: History,
    event: DunningEvent,
)
    requires
        is_on_course(run, first, history),
        succeeds(history, run.subscriptions, run.asks(), event),
    ensures
        is_on_course(
            run.after(event),
            first,
            history_after(history, run.subscriptions, run.asks()),
        ),
        run.after(event).subscriptions == run.subscriptions,
        run.after(event).now == run.now,
        run.after(event).config == run.config,
{
    let next = run.after(event);
    lemma_skips_what_is_not_due(run, first, run.at + 1);
    assert(tally_at(run, first, run.at + 1) == tally_at(run, first, run.at).after(
        run.sub(),
        run.now,
        run.config,
    ));
    assert(tally_at(next, first, next.at) == tally_at(run, first, next.at));
}

proof fn lemma_ends_on_course(
    run: DunningView,
    first: History,
    history: History,
    events: Seq<DunningEvent>,
)
    requires
        is_on_course(run, first, history),
        runs_smoothly(run, history, events),
    ensures
        exists|left: History| is_on_course(run_after(run, events), first, left),
        run_after(run, events).subscriptions == run.subscriptions,
        run_after(run, events).now == run.now,
        run_after(run, events).config == run.config,
    decreases events.len(),
{
    if events.len() > 0 {
        lemma_stays_on_course(run, first, history, events[0]);
        lemma_ends_on_course(
            run.after(events[0]),
            first,
            history_after(history, run.subscriptions, run.asks()),
            events.drop_first(),
        );
    }
}

/// A finished check in which nothing failed has counted just what was to be done: for each
/// subscription in turn its action, unless there is none, the history holds it or the account
/// is not in the state that it changes, and the final warning with a downgrade where it comes
/// late and the history does not hold it.
pub proof fn finished_check_counts_what_was_due(
    config: DunningConfig,
    now: Timestamp,
    subscriptions: Seq<DunningSubscription>,
    history: History,
    events: Seq<DunningEvent>,
)
    requires
        subscriptions.len() <= usize::MAX,
        runs_smoothly(DunningView::start(config, now, subscriptions), history, events),
        run_after(DunningView::start(config, now, subscriptions), events).asks() is Finished,
    ensures
        ({
            let end = run_after(DunningView::start(config, now, subscriptions), events);
            let due = Tally::start(history).after_all(
                subscriptions,
                subscriptions.len(),
                now,
                config,
            );
            &&& end.emails_sent == due.emails_sent
            &&& end.users_downgraded == due.users_downgraded
            &&& end.users_suspended == due.users_suspended
            &&& end.errors.len() == 0
        }),
{
    let start = DunningView::start(config, now, subscriptions);
    let fresh = DunningView { at: 0, ..start };
    lemma_skips_what_is_not_due(fresh, history, 0);
    assert(tally_at(start, history, start.at) == tally_at(fresh, history, start.at));
    assert(is_on_course(start, history, history));
    lemma_ends_on_course(start, history, history, events);
}

} // verus!
