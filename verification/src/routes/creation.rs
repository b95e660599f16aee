//! How a feed is added: one question at a time, in an order that costs nothing in vain.

use vstd::prelude::*;
use vstd::string::*;

use crate::error::{ApiError, ErrorKind};
use crate::routes::common;
use crate::routes::feeds;
use crate::text;

verus! {

/// What is to be done next to add a feed.
#[derive(Debug)]
pub enum CreationStep {
    /// Tell how many feeds the user has.
    Count,
    /// Fetch the feed at this address.
    Fetch(String),
    /// Look for the address of a feed in the page at this address.
    Discover(String),
    /// Tell whether the user has the feed at this address.
    CheckKnown(String),
    /// Store the feed at this address, which is the one fetched last.
    Store(String),
    /// Nothing: the feed is not added.
    Refuse(ApiError),
}

/// What came of it.
#[derive(Debug)]
pub enum CreationEvent {
    Counted(i64),
    Fetched,
    FetchFailed(String),
    Discovered(String),
    NotDiscovered(String),
    Known(bool),
}

/// How an attempt to add a feed stands.
#[derive(Debug)]
pub enum FeedCreation {
    /// The feeds of the user are to be counted. They may have up to `max`.
    Counting { input: String, max: i64 },
    /// The address that was typed in is to be fetched as a feed.
    Given(String),
    /// It is no feed, and is to be searched as a page.
    Page(String),
    /// The address found in the page is to be fetched as a feed.
    Linked(String),
    /// The feed at this address has been fetched.
    Ready(String),
    /// The feed at this address is not known yet.
    New(String),
    /// The user has as many feeds as they may have.
    OverLimit { count: i64, max: i64 },
    /// There is no feed.
    Lost(String),
    /// The user has the feed.
    Known,
}

/// What is known of an attempt to add a feed.
pub enum CreationView {
    Counting { input: Seq<char>, max: i64 },
    Given(Seq<char>),
    Page(Seq<char>),
    Linked(Seq<char>),
    Ready(Seq<char>),
    New(Seq<char>),
    Refused(ErrorKind, Seq<char>),
}

/// What is known of what is to be done next.
pub enum StepView {
    Count,
    Fetch(Seq<char>),
    Discover(Seq<char>),
    CheckKnown(Seq<char>),
    Store(Seq<char>),
    Refuse(ErrorKind, Seq<char>),
}

/// What is said of a user who has as many feeds as they may have.
pub open spec fn feed_limit_text(count: int, max: int) -> Seq<char> {
    "Feed limit reached ("@ + text::decimal(count) + "/"@ + text::decimal(max)
        + "). Upgrade to add more feeds."@
}

impl View for FeedCreation {
    type V = CreationView;

    open spec fn view(&self) -> CreationView {
        match self {
            FeedCreation::Counting { input, max } => CreationView::Counting {
                input: input@,
                max: *max,
            },
            FeedCreation::Given(url) => CreationView::Given(url@),
            FeedCreation::Page(url) => CreationView::Page(url@),
            FeedCreation::Linked(url) => CreationView::Linked(url@),
            FeedCreation::Ready(url) => CreationView::Ready(url@),
            FeedCreation::New(url) => CreationView::New(url@),
            FeedCreation::OverLimit { count, max } => CreationView::Refused(
                ErrorKind::Forbidden,
                feed_limit_text(*count as int, *max as int),
            ),
            FeedCreation::Lost(reason) => CreationView::Refused(ErrorKind::Validation, reason@),
            FeedCreation::Known => CreationView::Refused(
                ErrorKind::Conflict,
                "Feed already exists"@,
            ),
        }
    }
}

impl View for CreationStep {
    type V = StepView;

    open spec fn view(&self) -> StepView {
        match self {
            CreationStep::Count => StepView::Count,
            CreationStep::Fetch(url) => StepView::Fetch(url@),
            CreationStep::Discover(url) => StepView::Discover(url@),
            CreationStep::CheckKnown(url) => StepView::CheckKnown(url@),
            CreationStep::Store(url) => StepView::Store(url@),
            CreationStep::Refuse(e) => StepView::Refuse(e@.0, e@.1),
        }
    }
}

impl CreationView {
    /// What is to be done next.
    pub open spec fn asks(self) -> StepView {
        match self {
            CreationView::Counting { .. } => StepView::Count,
            CreationView::Given(url) => StepView::Fetch(url),
            CreationView::Page(url) => StepView::Discover(url),
            CreationView::Linked(url) => StepView::Fetch(url),
            CreationView::Ready(url) => StepView::CheckKnown(url),
            CreationView::New(url) => StepView::Store(url),
            CreationView::Refused(kind, message) => StepView::Refuse(kind, message),
        }
    }

    /// Whether an event is what can come of what is to be done.
    pub open spec fn expects(self, event: CreationEvent) -> bool {
        match self.asks() {
            StepView::Count => event is Counted,
            StepView::Fetch(_) => event is Fetched || event is FetchFailed,
            StepView::Discover(_) => event is Discovered || event is NotDiscovered,
            StepView::CheckKnown(_) => event is Known,
            _ => false,
        }
    }

    /// How the attempt stands after an event: a user with as many feeds as they may have is
    /// refused, an address that is no feed is searched as a page, once, and a feed that the user
    /// has is refused.
    pub open spec fn after(self, event: CreationEvent) -> CreationView {
        match (self, event) {
            (CreationView::Counting { input, max }, CreationEvent::Counted(count)) => {
                if count >= max {
                    CreationView::Refused(
                        ErrorKind::Forbidden,
                        feed_limit_text(count as int, max as int),
                    )
                } else {
                    CreationView::Given(feeds::normalized(input))
                }
            },
            (CreationView::Given(url), CreationEvent::Fetched) => CreationView::Ready(url),
            (CreationView::Given(url), CreationEvent::FetchFailed(_)) => CreationView::Page(url),
            (CreationView::Page(_), CreationEvent::Discovered(url)) => CreationView::Linked(url@),
            (
                CreationView::Page(_),
                CreationEvent::NotDiscovered(reason),
            ) => CreationView::Refused(
                ErrorKind::Validation,
                "Could not find RSS feed: "@ + reason@,
            ),
            (CreationView::Linked(url), CreationEvent::Fetched) => CreationView::Ready(url),
            (
                CreationView::Linked(_),
                CreationEvent::FetchFailed(reason),
            ) => CreationView::Refused(
                ErrorKind::Validation,
                "Failed to fetch discovered feed: "@ + reason@,
            ),
            (CreationView::Ready(url), CreationEvent::Known(known)) => if known {
                CreationView::Refused(ErrorKind::Conflict, "Feed already exists"@)
            } else {
                CreationView::New(url)
            },
            _ => self,
        }
    }

    /// Whether the attempt can take this course: each event comes of what was to be done.
    pub open spec fn takes_course(self, events: Seq<CreationEvent>) -> bool
        decreases events.len(),
    {
        events.len() == 0 || {
            &&& self.takes_course(events.drop_last())
            &&& self.after_all(events.drop_last()).expects(events.last())
        }
    }

    /// How the attempt stands after some events.
    pub open spec fn after_all(self, events: Seq<CreationEvent>) -> CreationView
        decreases events.len(),
    {
        if events.len() == 0 {
            self
        } else {
            self.after_all(events.drop_last()).after(events.last())
        }
    }
}

fn limit_message(count: i64, max: i64) -> (res: String)
    ensures
        res@ == feed_limit_text(count as int, max as int),
{
    let mut message: String = "Feed limit reached (".to_string();
    message.append(text::number_to_text(count).as_str());
    message.append("/");
    message.append(text::number_to_text(max).as_str());
    message.append("). Upgrade to add more feeds.");
    message
}

impl FeedCreation {
    /// The attempt to add the feed for an address that was typed in, for a user who may have up
    /// to `max` feeds.
    pub fn new(input: &str, max: i64) -> (res: Self)
        ensures
            res@ == (CreationView::Counting { input: input@, max }),
    {
        FeedCreation::Counting { input: input.to_string(), max }
    }

    /// What is to be done next.
    pub fn next_step(&self) -> (res: CreationStep)
        ensures
            res@ == self@.asks(),
    {
        match self {
            FeedCreation::Counting { .. } => CreationStep::Count,
            FeedCreation::Given(url) => CreationStep::Fetch(url.clone()),
            FeedCreation::Page(url) => CreationStep::Discover(url.clone()),
            FeedCreation::Linked(url) => CreationStep::Fetch(url.clone()),
            FeedCreation::Ready(url) => CreationStep::CheckKnown(url.clone()),
            FeedCreation::New(url) => CreationStep::Store(url.clone()),
            FeedCreation::OverLimit { count, max } => CreationStep::Refuse(
                ApiError::Forbidden(limit_message(*count, *max)),
            ),
            FeedCreation::Lost(reason) => CreationStep::Refuse(
                ApiError::Validation(reason.clone()),
            ),
            FeedCreation::Known => CreationStep::Refuse(
                ApiError::Conflict("Feed already exists".to_string()),
            ),
        }
    }

    /// How the attempt stands after an event.
    pub fn handle(self, event: CreationEvent) -> (res: Self)
        requires
            self@.expects(event),
        ensures
            res@ == self@.after(event),
    {
        match (self, event) {
            (FeedCreation::Counting { input, max }, CreationEvent::Counted(count)) => {
                if count >= max {
                    FeedCreation::OverLimit { count, max }
                } else {
                    FeedCreation::Given(feeds::normalize_url(input.as_str()))
                }
            },
            (FeedCreation::Given(url), CreationEvent::Fetched) => FeedCreation::Ready(url),
            (FeedCreation::Given(url), CreationEvent::FetchFailed(_)) => FeedCreation::Page(url),
            (FeedCreation::Page(_), CreationEvent::Discovered(url)) => FeedCreation::Linked(url),
            (FeedCreation::Page(_), CreationEvent::NotDiscovered(reason)) => FeedCreation::Lost(
                common::prefixed("Could not find RSS feed: ", reason.as_str()),
            ),
            (FeedCreation::Linked(url), CreationEvent::Fetched) => FeedCreation::Ready(url),
            (FeedCreation::Linked(_), CreationEvent::FetchFailed(reason)) => FeedCreation::Lost(
                common::prefixed("Failed to fetch discovered feed: ", reason.as_str()),
            ),
            (FeedCreation::Ready(url), CreationEvent::Known(known)) => if known {
                FeedCreation::Known
            } else {
                FeedCreation::New(url)
            },
            (other, _) => other,
        }
    }
}

/// A user who has as many feeds as they may have is refused at once, and nothing more is asked
/// for: no feed is fetched and no page is searched.
pub proof fn refused_limit_asks_for_nothing(input: Seq<char>, max: i64, count: i64)
    requires
        count >= max,
    ensures
        ({
            let start = CreationView::Counting { input, max };
            let refused = start.after(CreationEvent::Counted(count));
            &&& start.asks() is Count
            &&& refused.asks() == StepView::Refuse(
                ErrorKind::Forbidden,
                feed_limit_text(count as int, max as int),
            )
            &&& forall|event: CreationEvent| !refused.expects(event)
        }),
{
}

/// A feed that the user has is refused, and nothing more is asked for: it is not stored.
pub proof fn known_feed_is_not_stored(url: Seq<char>)
    ensures
        ({
            let refused = CreationView::Ready(url).after(CreationEvent::Known(true));
            &&& refused.asks() == StepView::Refuse(ErrorKind::Conflict, "Feed already exists"@)
            &&& forall|event: CreationEvent| !refused.expects(event)
        }),
{
}

/// What is asked for says what came before, whatever course an attempt takes: nothing is fetched,
/// searched, compared or stored unless the user was counted to have fewer feeds than they may
/// have, a feed is compared with those of the user right after it was fetched, and one is stored
/// right after it was found not to be among them.
pub proof fn what_is_asked_for_was_earned(
    input: Seq<char>,
    max: i64,
    events: Seq<CreationEvent>,
)
    requires
        (CreationView::Counting { input, max }).takes_course(events),
    ensures
        ({
            let start = CreationView::Counting { input, max };
            let now = start.after_all(events);
            &&& !(now.asks() is Count || now.asks() is Refuse) ==> events.len() > 0 && (
            events[0] matches CreationEvent::Counted(count) && count < max)
            &&& now.asks() is CheckKnown ==> events.last() is Fetched
            &&& now.asks() matches StepView::Store(url) ==> {
                &&& events.last() == CreationEvent::Known(false)
                &&& start.after_all(events.drop_last()).asks() == StepView::CheckKnown(url)
                &&& events.len() >= 3
                &&& events[events.len() - 2] is Fetched
            }
        }),
    decreases events.len(),
{
    if events.len() > 0 {
        let start = CreationView::Counting { input, max };
        let before = events.drop_last();
        what_is_asked_for_was_earned(input, max, before);
        if before.len() > 0 {
            assert(events[0] == before[0]);
            assert(before.last() == events[events.len() - 2]);
            if before.len() == 1 {
                let first = before.drop_last();
                assert(start.after_all(first) == start);
                assert(start.after_all(before) == start.after(before.last()));
            }
        } else {
            assert(start.after_all(before) == start);
        }
        lemma_counting_is_the_start(start, before);
    }
}

proof fn lemma_counting_is_the_start(start: CreationView, events: Seq<CreationEvent>)
    requires
        start is Counting,
        start.takes_course(events),
    ensures
        start.after_all(events) is Counting ==> events.len() == 0,
    decreases events.len(),
{
    if events.len() > 0 {
        lemma_counting_is_the_start(start, events.drop_last());
    }
}

/// The feed at the address that was typed in is stored where it is one that the user has not, and
/// there is room for it.
pub proof fn typed_feed_is_stored(
    input: &str,
    max: i64,
    start: FeedCreation,
    count: i64,
    counted: FeedCreation,
    asked: CreationStep,
    fetched: FeedCreation,
    compared: CreationStep,
    unknown: FeedCreation,
    res: CreationStep,
)
    requires
        call_ensures(FeedCreation::new, (input, max), start),
        call_ensures(FeedCreation::handle, (start, CreationEvent::Counted(count)), counted),
        call_ensures(FeedCreation::next_step, (&counted,), asked),
        call_ensures(FeedCreation::handle, (counted, CreationEvent::Fetched), fetched),
        call_ensures(FeedCreation::next_step, (&fetched,), compared),
        call_ensures(FeedCreation::handle, (fetched, CreationEvent::Known(false)), unknown),
        call_ensures(FeedCreation::next_step, (&unknown,), res),
    ensures
        count < max ==> {
            &&& asked matches CreationStep::Fetch(url) && url@ == feeds::normalized(input@)
            &&& compared matches CreationStep::CheckKnown(url) && url@ == feeds::normalized(input@)
            &&& res matches CreationStep::Store(url) && url@ == feeds::normalized(input@)
        },
        count >= max ==> (asked matches CreationStep::Refuse(ApiError::Forbidden(message))
            && message@ == "Feed limit reached ("@ + text::decimal(count as int) + "/"@
            + text::decimal(max as int) + "). Upgrade to add more feeds."@),
{
}

/// What is no feed is searched as a page, and the feed that the page names is fetched and stored
/// in its place. Where there is none, or it is none, the user is told why.
pub proof fn feed_of_a_page_is_stored(
    url: String,
    given: FeedCreation,
    failed: String,
    page: FeedCreation,
    search: CreationStep,
    link: String,
    linked: FeedCreation,
    asked: CreationStep,
    fetched: FeedCreation,
    unknown: FeedCreation,
    res: CreationStep,
    reason: String,
    lost: FeedCreation,
    told: CreationStep,
    broken: FeedCreation,
    said: CreationStep,
)
    requires
        given == FeedCreation::Given(url),
        call_ensures(FeedCreation::handle, (given, CreationEvent::FetchFailed(failed)), page),
        call_ensures(FeedCreation::next_step, (&page,), search),
        call_ensures(FeedCreation::handle, (page, CreationEvent::Discovered(link)), linked),
        call_ensures(FeedCreation::next_step, (&linked,), asked),
        call_ensures(FeedCreation::handle, (linked, CreationEvent::Fetched), fetched),
        call_ensures(FeedCreation::handle, (fetched, CreationEvent::Known(false)), unknown),
        call_ensures(FeedCreation::next_step, (&unknown,), res),
        call_ensures(FeedCreation::handle, (page, CreationEvent::NotDiscovered(reason)), lost),
        call_ensures(FeedCreation::next_step, (&lost,), told),
        call_ensures(FeedCreation::handle, (linked, CreationEvent::FetchFailed(reason)), broken),
        call_ensures(FeedCreation::next_step, (&broken,), said),
    ensures
        search matches CreationStep::Discover(at) && at@ == url@,
        asked matches CreationStep::Fetch(at) && at@ == link@,
        res matches CreationStep::Store(at) && at@ == link@,
        told matches CreationStep::Refuse(ApiError::Validation(message)) && message@
            == "Could not find RSS feed: "@ + reason@,
        said matches CreationStep::Refuse(ApiError::Validation(message)) && message@
            == "Failed to fetch discovered feed: "@ + reason@,
{
}

} // verus!
