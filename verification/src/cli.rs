//! What the commands of the command line report and decide.

use vstd::prelude::*;
use vstd::string::*;

use crate::curated::export::{CuratedItemExport, CuratedRuleEvidence};
use crate::curated::model::{Decision, DecisionOutcome, Evaluation, Evidence};
use crate::ids::Uuid;
use crate::opml::document;
use crate::opml::document::{FlatFeed, OpmlDocument, OpmlOutline};
use crate::routes::feeds::FeedItem;
use crate::text;
use crate::time;

verus! {

/// What an OPML document holds.
#[derive(Debug)]
pub struct OpmlSummary {
    pub title: Option<String>,
    pub feed_count: usize,
    pub folder_count: usize,
    pub feeds: Vec<FlatFeed>,
}

/// What an OPML document holds: its feeds, one after the other, and how many feeds and folders
/// there are.
pub fn opml_summary(doc: &OpmlDocument) -> (res: OpmlSummary)
    ensures
        text::view_opt(res.title) == text::view_opt(doc.title),
        document::flat_views(res.feeds@) == document::flat_in(
            doc.outlines@,
            doc.outlines@.len(),
            None,
        ),
        res.feed_count == document::feeds_in(doc.outlines@, doc.outlines@.len()),
        res.folder_count == document::capped(
            document::folders_in(doc.outlines@, doc.outlines@.len()),
        ),
{
    let feeds: Vec<FlatFeed> = document::flatten_outlines(&doc.outlines, None);
    proof {
        document::flattening_keeps_every_feed(doc.outlines@, doc.outlines@.len(), None);
        assert(document::flat_views(feeds@).len() == feeds@.len());
    }
    OpmlSummary {
        title: text::clone_opt(&doc.title),
        feed_count: feeds.len(),
        folder_count: doc.folder_count(),
        feeds,
    }
}

/// What a feed has delivered.
#[derive(Debug)]
pub struct FetchFeedSummary {
    pub item_count: usize,
    pub items: Vec<FetchFeedItem>,
}

/// An item that a feed has delivered.
#[derive(Debug)]
pub struct FetchFeedItem {
    pub guid: String,
    pub title: String,
    pub url: Option<String>,
    pub published_at: Option<String>,
}

/// Whether `shown` shows an item.
pub open spec fn shows_item(shown: FetchFeedItem, item: FeedItem) -> bool {
    &&& shown.guid@ == item.guid@
    &&& shown.title@ == item.title@
    &&& text::view_opt(shown.url) == text::view_opt(item.url)
    &&& text::view_opt(shown.published_at) == (match item.published_at {
        Some(at) => Some(time::rfc3339_offset_text(at)),
        None => None,
    })
}

/// What a feed has delivered: the number of items, and the first twenty of them.
pub fn fetch_summary(items: &Vec<FeedItem>) -> (res: FetchFeedSummary)
    requires
        forall|i: int|
            0 <= i < items@.len() ==> ((#[trigger] items@[i]).published_at matches Some(at)
                ==> at.wf()),
    ensures
        res.item_count == items@.len(),
        res.items@.len() == if items@.len() <= 20 {
            items@.len()
        } else {
            20
        },
        forall|i: int|
            0 <= i < res.items@.len() ==> shows_item(#[trigger] res.items@[i], items@[i]),
{
    let count: usize = if items.len() <= 20 {
        items.len()
    } else {
        20
    };
    let mut shown: Vec<FetchFeedItem> = Vec::new();
    while shown.len() < count
        invariant
            count <= items@.len(),
            shown@.len() <= count,
            forall|i: int|
                0 <= i < items@.len() ==> ((#[trigger] items@[i]).published_at matches Some(at)
                    ==> at.wf()),
            forall|i: int| 0 <= i < shown@.len() ==> shows_item(#[trigger] shown@[i], items@[i]),
        decreases count - shown@.len(),
    {
        let item: &FeedItem = &items[shown.len()];
        shown.push(
            FetchFeedItem {
                guid: item.guid.clone(),
                title: item.title.clone(),
                url: text::clone_opt(&item.url),
                published_at: match item.published_at {
                    Some(at) => Some(time::rfc3339_offset(at)),
                    None => None,
                },
            },
        );
    }
    FetchFeedSummary { item_count: items.len(), items: shown }
}

/// What came of holding an article against a rule.
#[derive(Debug)]
pub struct EvaluateRuleSummary {
    pub matched: bool,
    pub action: Option<String>,
    pub deciding_rule: Option<String>,
    pub decisions: Vec<EvaluateRuleDecision>,
}

/// What came of one rule.
#[derive(Debug)]
pub struct EvaluateRuleDecision {
    pub rule_id: Uuid,
    pub outcome: String,
    pub actions: Vec<String>,
    pub confidence_bits: u32,
    pub explanation: String,
    pub evidence: Vec<Evidence>,
}

/// The name of what came of a rule.
pub open spec fn outcome_name(outcome: DecisionOutcome) -> Seq<char> {
    match outcome {
        DecisionOutcome::Matched => "Matched"@,
        DecisionOutcome::NotMatched => "NotMatched"@,
        DecisionOutcome::Skipped => "Skipped"@,
    }
}

/// Whether two pieces of evidence say the same.
pub open spec fn same_evidence(a: Evidence, b: Evidence) -> bool {
    &&& a.field@ == b.field@
    &&& a.excerpt@ == b.excerpt@
    &&& text::view_opt(a.pattern) == text::view_opt(b.pattern)
}

/// Whether `shown` shows what came of a rule.
pub open spec fn shows_decision(shown: EvaluateRuleDecision, decision: Decision) -> bool {
    &&& shown.rule_id == decision.rule_id
    &&& shown.outcome@ == outcome_name(decision.outcome)
    &&& text::views(shown.actions@) == text::views(decision.actions@)
    &&& shown.confidence_bits == decision.confidence_bits
    &&& shown.explanation@ == decision.explanation@
    &&& shown.evidence@.len() == decision.evidence@.len()
    &&& forall|i: int|
        0 <= i < shown.evidence@.len() ==> same_evidence(
            #[trigger] shown.evidence@[i],
            decision.evidence@[i],
        )
}

fn summarize_decision(decision: &Decision) -> (res: EvaluateRuleDecision)
    ensures
        shows_decision(res, *decision),
{
    let mut evidence: Vec<Evidence> = Vec::new();
    while evidence.len() < decision.evidence.len()
        invariant
            evidence@.len() <= decision.evidence@.len(),
            forall|i: int|
                0 <= i < evidence@.len() ==> same_evidence(
                    #[trigger] evidence@[i],
                    decision.evidence@[i],
                ),
        decreases decision.evidence@.len() - evidence@.len(),
    {
        let piece: &Evidence = &decision.evidence[evidence.len()];
        evidence.push(
            Evidence {
                field: piece.field.clone(),
                excerpt: piece.excerpt.clone(),
                pattern: text::clone_opt(&piece.pattern),
            },
        );
    }
    let outcome: &str = match decision.outcome {
        DecisionOutcome::Matched => "Matched",
        DecisionOutcome::NotMatched => "NotMatched",
        DecisionOutcome::Skipped => "Skipped",
    };
    EvaluateRuleDecision {
        rule_id: decision.rule_id,
        outcome: outcome.to_string(),
        actions: text::clone_all(&decision.actions),
        confidence_bits: decision.confidence_bits,
        explanation: decision.explanation.clone(),
        evidence,
    }
}

/// What came of holding an article against a rule. The rule matched where there is something
/// to be done.
pub fn evaluation_summary(evaluation: &Evaluation) -> (res: EvaluateRuleSummary)
    ensures
        res.matched == (evaluation.action is Some),
        text::view_opt(res.action) == text::view_opt(evaluation.action),
        text::view_opt(res.deciding_rule) == text::view_opt(evaluation.deciding_rule),
        res.decisions@.len() == evaluation.decisions@.len(),
        forall|i: int|
            0 <= i < res.decisions@.len() ==> shows_decision(
                #[trigger] res.decisions@[i],
                evaluation.decisions@[i],
            ),
{
    let mut decisions: Vec<EvaluateRuleDecision> = Vec::new();
    while decisions.len() < evaluation.decisions.len()
        invariant
            decisions@.len() <= evaluation.decisions@.len(),
            forall|i: int|
                0 <= i < decisions@.len() ==> shows_decision(
                    #[trigger] decisions@[i],
                    evaluation.decisions@[i],
                ),
        decreases evaluation.decisions@.len() - decisions@.len(),
    {
        decisions.push(summarize_decision(&evaluation.decisions[decisions.len()]));
    }
    EvaluateRuleSummary {
        matched: evaluation.action.is_some(),
        action: text::clone_opt(&evaluation.action),
        deciding_rule: text::clone_opt(&evaluation.deciding_rule),
        decisions,
    }
}

/// Whether an export shows a rule that matched.
pub fn export_matched(export: &CuratedItemExport) -> (res: bool)
    ensures
        res == exists|i: int|
            0 <= i < export.rule_evidence@.len() && (
            #[trigger] export.rule_evidence@[i]).decision@ == "match"@,
{
    let mut i: usize = 0;
    while i < export.rule_evidence.len()
        invariant
            i <= export.rule_evidence@.len(),
            forall|j: int|
                0 <= j < i ==> (#[trigger] export.rule_evidence@[j]).decision@ != "match"@,
        decreases export.rule_evidence@.len() - i,
    {
        let evidence: &CuratedRuleEvidence = &export.rule_evidence[i];
        if text::same(evidence.decision.as_str(), "match") {
            return true;
        }
        i += 1;
    }
    false
}

/// A demonstration needs a feed.
pub fn check_demo_feeds(count: usize) -> (res: Result<(), String>)
    ensures
        res is Ok <==> count > 0,
        res matches Err(reason) ==> reason@
            == "OPML file must contain at least one feed for demo-curate"@,
{
    if count > 0 {
        Ok(())
    } else {
        Err("OPML file must contain at least one feed for demo-curate".to_string())
    }
}

/// The document with a single feed that was fetched live, and that feed.
pub fn live_document(title: &str, url: &str, site_url: &Option<String>) -> (res: (
    OpmlDocument,
    Vec<FlatFeed>,
))
    ensures
        text::view_opt(res.0.title) == Some("FeedMind live demo subscriptions"@),
        res.0.date_created is None,
        res.0.owner_email is None,
        res.0.outlines@.len() == 1,
        document::is_feed_entry(res.0.outlines@[0], title@, url@, text::view_opt(*site_url)),
        res.1@.len() == 1,
        res.1@[0]@ == (document::FlatFeedView {
            title: title@,
            xml_url: url@,
            html_url: text::view_opt(*site_url),
            folder: None,
        }),
{
    let mut doc: OpmlDocument = OpmlDocument::new(
        Some("FeedMind live demo subscriptions".to_string()),
    );
    doc.outlines.push(
        OpmlOutline::feed(title.to_string(), url.to_string(), text::clone_opt(site_url)),
    );
    let mut feeds: Vec<FlatFeed> = Vec::new();
    feeds.push(
        FlatFeed {
            title: title.to_string(),
            xml_url: url.to_string(),
            html_url: text::clone_opt(site_url),
            folder: None,
        },
    );
    (doc, feeds)
}

/// What an import from the command line needs done next.
#[derive(Debug)]
pub enum CliImportAction {
    /// Find or create the folder of this name.
    CreateFolder { name: String },
    /// Store the feed at this place, in this folder.
    CreateFeed { at: usize, folder_id: Option<Uuid> },
    /// Nothing: all feeds have been dealt with.
    Finished,
}

/// What came of it.
#[derive(Clone, Copy, Debug, PartialEq, Eq, Structural)]
pub enum CliImportEvent {
    FolderCreated(Uuid),
    FeedCreated,
    FeedRefused,
}

/// An import from the command line.
#[derive(Debug)]
pub struct CliImport {
    feeds: Vec<FlatFeed>,
    at: usize,
    names: Vec<String>,
    ids: Vec<Uuid>,
    created: usize,
    skipped: usize,
}

/// What is known of an import: the feeds, how many of them have been dealt with, the folders
/// so far by name and id, and how many feeds were created and how many were skipped.
#[verifier::ext_equal]
pub struct CliImportView {
    pub feeds: Seq<document::FlatFeedView>,
    pub at: nat,
    pub names: Seq<Seq<char>>,
    pub ids: Seq<Uuid>,
    pub created: nat,
    pub skipped: nat,
}

impl View for CliImport {
    type V = CliImportView;

    closed spec fn view(&self) -> CliImportView {
        CliImportView {
            feeds: document::flat_views(self.feeds@),
            at: self.at as nat,
            names: text::views(self.names@),
            ids: self.ids@,
            created: self.created as nat,
            skipped: self.skipped as nat,
        }
    }
}

/// The place of a name among some, from `i` on.
pub open spec fn place_of(names: Seq<Seq<char>>, name: Seq<char>, i: int) -> Option<int>
    decreases names.len() - i,
{
    if i >= names.len() || i < 0 {
        None
    } else if names[i] == name {
        Some(i)
    } else {
        place_of(names, name, i + 1)
    }
}

impl CliImportView {
    /// The folder of the feed at hand is not known yet.
    pub open spec fn needs_folder(self) -> bool {
        match self.feeds[self.at as int].folder {
            Some(name) => place_of(self.names, name, 0) is None,
            None => false,
        }
    }

    /// The id of the folder of the feed at hand.
    pub open spec fn folder_id(self) -> Option<Uuid> {
        match self.feeds[self.at as int].folder {
            Some(name) => match place_of(self.names, name, 0) {
                Some(i) => Some(self.ids[i]),
                None => None,
            },
            None => None,
        }
    }

    /// Whether an event is what comes of what the import needs done.
    pub open spec fn expects(self, event: CliImportEvent) -> bool {
        &&& self.at < self.feeds.len()
        &&& (event is FolderCreated <==> self.needs_folder())
    }

    /// The import after an event. A feed that could not be stored is skipped.
    pub open spec fn after(self, event: CliImportEvent) -> CliImportView {
        match event {
            CliImportEvent::FolderCreated(id) => CliImportView {
                names: self.names.push(self.feeds[self.at as int].folder->0),
                ids: self.ids.push(id),
                ..self
            },
            CliImportEvent::FeedCreated => CliImportView {
                at: self.at + 1,
                created: self.created + 1,
                ..self
            },
            CliImportEvent::FeedRefused => CliImportView {
                at: self.at + 1,
                skipped: self.skipped + 1,
                ..self
            },
        }
    }

    /// Every feed dealt with was created or skipped, and no folder was created twice.
    pub open spec fn accounted(self) -> bool {
        &&& self.at <= self.feeds.len()
        &&& self.created + self.skipped == self.at
        &&& self.names.len() == self.ids.len()
        &&& self.names.no_duplicates()
    }
}

proof fn lemma_place(names: Seq<Seq<char>>, name: Seq<char>, i: int)
    requires
        0 <= i,
    ensures
        match place_of(names, name, i) {
            Some(p) => i <= p < names.len() && names[p] == name,
            None => forall|j: int| i <= j < names.len() ==> #[trigger] names[j] != name,
        },
    decreases names.len() - i,
{
    if i < names.len() && names[i] != name {
        lemma_place(names, name, i + 1);
    }
}

impl CliImport {
    /// Everything dealt with is accounted for.
    pub closed spec fn wf(self) -> bool {
        self@.accounted()
    }

    /// An import that is well formed is accounted for.
    pub proof fn is_accounted_for(self)
        requires
            self.wf(),
        ensures
            self@.accounted(),
    {
    }

    /// The import of some feeds, none of them dealt with yet.
    pub fn new(feeds: Vec<FlatFeed>) -> (res: Self)
        ensures
            res.wf(),
            res@ == (CliImportView {
                feeds: document::flat_views(feeds@),
                at: 0,
                names: Seq::empty(),
                ids: Seq::empty(),
                created: 0,
                skipped: 0,
            }),
    {
        let res: CliImport = CliImport {
            feeds,
            at: 0,
            names: Vec::new(),
            ids: Vec::new(),
            created: 0,
            skipped: 0,
        };
        proof {
            assert(res@.names =~= Seq::<Seq<char>>::empty());
            assert(res@.ids =~= Seq::<Uuid>::empty());
        }
        res
    }

    fn find(&self, name: &str) -> (res: Option<usize>)
        ensures
            match res {
                Some(i) => place_of(self@.names, name@, 0) == Some(i as int) && i
                    < self.names@.len(),
                None => place_of(self@.names, name@, 0) is None,
            },
    {
        let mut i: usize = 0;
        while i < self.names.len()
            invariant
                i <= self.names@.len(),
                place_of(self@.names, name@, 0) == place_of(self@.names, name@, i as int),
            decreases self.names@.len() - i,
        {
            proof {
                assert(self@.names[i as int] == self.names@[i as int]@);
            }
            if text::same(self.names[i].as_str(), name) {
                return Some(i);
            }
            i += 1;
        }
        None
    }

    /// What the import needs done next.
    pub fn next_action(&self) -> (res: CliImportAction)
        requires
            self.wf(),
        ensures
            if self@.at >= self@.feeds.len() {
                res is Finished
            } else if self@.needs_folder() {
                res matches CliImportAction::CreateFolder { name }
                    && self@.feeds[self@.at as int].folder == Some(name@)
            } else {
                res == (CliImportAction::CreateFeed {
                    at: self@.at as usize,
                    folder_id: self@.folder_id(),
                })
            },
    {
        if self.at >= self.feeds.len() {
            return CliImportAction::Finished;
        }
        proof {
            assert(self@.feeds[self.at as int] == self.feeds@[self.at as int]@);
        }
        match &self.feeds[self.at].folder {
            Some(name) => match self.find(name.as_str()) {
                Some(i) => CliImportAction::CreateFeed {
                    at: self.at,
                    folder_id: Some(self.ids[i]),
                },
                None => CliImportAction::CreateFolder { name: name.clone() },
            },
            None => CliImportAction::CreateFeed { at: self.at, folder_id: None },
        }
    }

    /// Takes in what came of it.
    pub fn handle(&mut self, event: CliImportEvent)
        requires
            old(self).wf(),
            old(self)@.expects(event),
        ensures
            final(self).wf(),
            final(self)@ == old(self)@.after(event),
    {
        let ghost before = self@;
        proof {
            assert(before.feeds[self.at as int] == self.feeds@[self.at as int]@);
            assert(self.at < self.feeds.len());
        }
        match event {
            CliImportEvent::FolderCreated(id) => {
                if let Some(name) = &self.feeds[self.at].folder {
                    let ghost names = self.names@;
                    let name: String = name.clone();
                    proof {
                        lemma_place(before.names, name@, 0);
                    }
                    self.names.push(name);
                    self.ids.push(id);
                    proof {
                        assert(text::views(self.names@) =~= text::views(names).push(name@));
                    }
                }
            },
            CliImportEvent::FeedCreated => {
                self.at = self.at + 1;
                self.created = self.created + 1;
            },
            CliImportEvent::FeedRefused => {
                self.at = self.at + 1;
                self.skipped = self.skipped + 1;
            },
        }
        proof {
            assert(self@ =~= before.after(event));
        }
    }

    /// The feed at a place.
    pub fn feed(&self, at: usize) -> (res: &FlatFeed)
        requires
            at < self@.feeds.len(),
        ensures
            res@ == self@.feeds[at as int],
    {
        &self.feeds[at]
    }

    /// How many feeds were created, how many were skipped, and how many folders there are.
    pub fn counts(&self) -> (res: (usize, usize, usize))
        ensures
            res.0 == self@.created,
            res.1 == self@.skipped,
            res.2 == self@.names.len(),
    {
        (self.created, self.skipped, self.names.len())
    }
}

/// When an import has finished, every feed was created or skipped.
pub proof fn cli_import_accounts_for_every_feed(run: CliImportView)
    requires
        run.accounted(),
        run.at >= run.feeds.len(),
    ensures
        run.created + run.skipped == run.feeds.len(),
{
}

/// Whether the database says that something is there already.
pub fn is_duplicate_error(message: &str) -> (res: bool)
    ensures
        res == (text::occurs_in("duplicate"@, message@) || text::occurs_in("unique"@, message@)),
{
    text::contains(message, "duplicate") || text::contains(message, "unique")
}

/// The summary of a document has its title and all its feeds, and counts them.
pub proof fn summary_shows_every_feed(
    doc: OpmlDocument,
    flat: Vec<FlatFeed>,
    res: OpmlSummary,
)
    requires
        call_ensures(document::flatten_outlines, (&doc.outlines, None), flat),
        call_ensures(opml_summary, (&doc,), res),
    ensures
        text::view_opt(res.title) == text::view_opt(doc.title),
        res.feed_count == res.feeds@.len(),
        res.feeds@.len() == flat@.len(),
        forall|i: int|
            0 <= i < flat@.len() ==> {
                &&& (#[trigger] res.feeds@[i]).title@ == flat@[i].title@
                &&& res.feeds@[i].xml_url@ == flat@[i].xml_url@
                &&& text::view_opt(res.feeds@[i].html_url) == text::view_opt(flat@[i].html_url)
                &&& text::view_opt(res.feeds@[i].folder) == text::view_opt(flat@[i].folder)
            },
{
    document::flattening_keeps_every_feed(doc.outlines@, doc.outlines@.len(), None);
    assert(document::flat_views(res.feeds@).len() == res.feeds@.len());
    assert(document::flat_views(flat@).len() == flat@.len());
    assert forall|i: int| 0 <= i < flat@.len() implies (#[trigger] res.feeds@[i])@ == flat@[i]@ by {
        assert(document::flat_views(res.feeds@)[i] == res.feeds@[i]@);
        assert(document::flat_views(flat@)[i] == flat@[i]@);
    }
    assert forall|i: int| 0 <= i < flat@.len() implies {
        &&& (#[trigger] res.feeds@[i]).title@ == flat@[i].title@
        &&& res.feeds@[i].xml_url@ == flat@[i].xml_url@
        &&& text::view_opt(res.feeds@[i].html_url) == text::view_opt(flat@[i].html_url)
        &&& text::view_opt(res.feeds@[i].folder) == text::view_opt(flat@[i].folder)
    } by {
        assert(res.feeds@[i]@ == flat@[i]@);
    }
}

/// Of what a feed has delivered the first twenty items are shown, as they are, and all of them
/// are counted.
pub proof fn first_twenty_items_are_shown(items: Vec<FeedItem>, res: FetchFeedSummary, i: int)
    requires
        call_ensures(fetch_summary, (&items,), res),
        0 <= i < items@.len(),
    ensures
        res.item_count == items@.len(),
        res.items@.len() <= 20,
        i < 20 <==> i < res.items@.len(),
        i < 20 ==> {
            let shown = res.items@[i];
            &&& shown.guid@ == items@[i].guid@
            &&& shown.title@ == items@[i].title@
            &&& text::view_opt(shown.url) == text::view_opt(items@[i].url)
            &&& shown.published_at is Some <==> items@[i].published_at is Some
            &&& items@[i].published_at matches Some(at) ==> shown.published_at->0@
                == time::rfc3339_offset_text(at)
        },
{
    if i < 20 {
        assert(shows_item(res.items@[i], items@[i]));
    }
}

/// What came of a rule is shown as it is: whether there is something to be done, what decided,
/// and every decision with its reasons.
pub proof fn evaluation_is_shown_as_it_is(
    evaluation: Evaluation,
    res: EvaluateRuleSummary,
    i: int,
    k: int,
)
    requires
        call_ensures(evaluation_summary, (&evaluation,), res),
        0 <= i < evaluation.decisions@.len(),
        0 <= k < evaluation.decisions@[i].evidence@.len(),
    ensures
        res.matched <==> evaluation.action is Some,
        text::view_opt(res.action) == text::view_opt(evaluation.action),
        text::view_opt(res.deciding_rule) == text::view_opt(evaluation.deciding_rule),
        res.decisions@.len() == evaluation.decisions@.len(),
        ({
            let shown = res.decisions@[i];
            let decision = evaluation.decisions@[i];
            &&& shown.rule_id == decision.rule_id
            &&& shown.outcome@ == "Matched"@ <==> decision.outcome == DecisionOutcome::Matched
            &&& shown.outcome@ == "NotMatched"@ <==> decision.outcome
                == DecisionOutcome::NotMatched
            &&& shown.outcome@ == "Skipped"@ <==> decision.outcome == DecisionOutcome::Skipped
            &&& text::views(shown.actions@) == text::views(decision.actions@)
            &&& shown.confidence_bits == decision.confidence_bits
            &&& shown.explanation@ == decision.explanation@
            &&& shown.evidence@.len() == decision.evidence@.len()
            &&& shown.evidence@[k].field@ == decision.evidence@[k].field@
            &&& shown.evidence@[k].excerpt@ == decision.evidence@[k].excerpt@
            &&& text::view_opt(shown.evidence@[k].pattern) == text::view_opt(
                decision.evidence@[k].pattern,
            )
        }),
{
    reveal_strlit("Matched");
    reveal_strlit("NotMatched");
    reveal_strlit("Skipped");
    assert("Matched"@[0] != "Skipped"@[0] && "Matched"@.len() != "NotMatched"@.len()
        && "Skipped"@.len() != "NotMatched"@.len());
    assert(shows_decision(res.decisions@[i], evaluation.decisions@[i]));
    assert(same_evidence(
        res.decisions@[i].evidence@[k],
        evaluation.decisions@[i].evidence@[k],
    ));
}

/// The document of a live demonstration holds just the feed that was fetched, and so does the
/// list beside it.
pub proof fn live_document_holds_the_feed(
    title: &str,
    url: &str,
    site_url: Option<String>,
    res: (OpmlDocument, Vec<FlatFeed>),
    count: usize,
    check: Result<(), String>,
)
    requires
        call_ensures(live_document, (title, url, &site_url), res),
        call_ensures(check_demo_feeds, (count,), check),
    ensures
        res.0.outlines@.len() == 1 && res.1@.len() == 1,
        res.0.outlines@[0].text@ == title@ && res.1@[0].title@ == title@,
        res.0.outlines@[0].xml_url is Some && res.0.outlines@[0].xml_url->0@ == url@,
        res.1@[0].xml_url@ == url@,
        text::view_opt(res.0.outlines@[0].html_url) == text::view_opt(site_url),
        text::view_opt(res.1@[0].html_url) == text::view_opt(site_url),
        res.1@[0].folder is None,
        check is Err <==> count == 0,
{
    assert(res.1@[0]@.folder is None);
}

/// A feed without a folder is stored in none, and one with a folder in the folder of that name. A
/// folder is created only where none of that name was, and each name only once.
pub proof fn feed_goes_into_the_folder_of_its_name(run: CliImport, action: CliImportAction)
    requires
        run.wf(),
        run@.at < run@.feeds.len(),
        call_ensures(CliImport::next_action, (&run,), action),
    ensures
        action matches CliImportAction::CreateFeed { at, folder_id } ==> {
            &&& at == run@.at
            &&& folder_id is Some <==> run@.feeds[run@.at as int].folder is Some
            &&& folder_id matches Some(id) ==> exists|i: int|
                0 <= i < run@.names.len() && #[trigger] run@.names[i] == run@.feeds[run@.at as int].folder->0
                    && run@.ids[i] == id
        },
        action matches CliImportAction::CreateFolder { name } ==> {
            &&& run@.feeds[run@.at as int].folder == Some(name@)
            &&& !run@.names.contains(name@)
        },
        !(action is Finished),
{
    if let Some(name) = run@.feeds[run@.at as int].folder {
        lemma_place(run@.names, name, 0);
    }
}

/// After a folder was created the feed at hand is stored in it, and a feed that was dealt with is
/// counted as created or as skipped, whichever it was.
pub proof fn created_folder_takes_the_feed(run: CliImportView, id: Uuid)
    requires
        run.accounted(),
        run.at < run.feeds.len(),
        run.needs_folder(),
    ensures
        ({
            let next = run.after(CliImportEvent::FolderCreated(id));
            let stored = next.after(CliImportEvent::FeedCreated);
            let refused = next.after(CliImportEvent::FeedRefused);
            &&& !next.needs_folder()
            &&& next.folder_id() == Some(id)
            &&& next.at == run.at && next.created == run.created && next.skipped == run.skipped
            &&& next.names.len() == run.names.len() + 1
            &&& stored.at == run.at + 1 && stored.created == run.created + 1 && stored.skipped
                == run.skipped
            &&& refused.at == run.at + 1 && refused.created == run.created && refused.skipped
                == run.skipped + 1
            &&& stored.names == next.names && refused.names == next.names
        }),
{
    let name = run.feeds[run.at as int].folder->0;
    let next = run.after(CliImportEvent::FolderCreated(id));
    lemma_place(run.names, name, 0);
    lemma_place(next.names, name, 0);
    let p = run.names.len() as int;
    assert(next.names[p] == name);
    let found = place_of(next.names, name, 0)->0;
    if found < p {
        assert(next.names[found] == run.names[found]);
    }
}

/// An export matched if and only if one of its rules did, and the database speaks of a duplicate
/// if and only if it says so or says that something is not unique.
pub proof fn matches_and_duplicates_are_told(
    export: CuratedItemExport,
    res: bool,
    message: &str,
    duplicate: bool,
    i: int,
)
    requires
        call_ensures(export_matched, (&export,), res),
        call_ensures(is_duplicate_error, (message,), duplicate),
        0 <= i < export.rule_evidence@.len(),
    ensures
        export.rule_evidence@[i].decision@ == "match"@ ==> res,
        res ==> exists|k: int|
            0 <= k < export.rule_evidence@.len() && (
            #[trigger] export.rule_evidence@[k]).decision@ == "match"@,
        duplicate <==> text::occurs_in("unique"@, message@) || text::occurs_in(
            "duplicate"@,
            message@,
        ),
{
}

/// What an import has come to is told in its three numbers.
pub proof fn import_counts_are_told(
    run: CliImport,
    res: (usize, usize, usize),
    at: usize,
    feed: &FlatFeed,
)
    requires
        run.wf(),
        call_ensures(CliImport::counts, (&run,), res),
        call_ensures(CliImport::feed, (&run, at), feed),
    ensures
        res.0 == run@.created && res.1 == run@.skipped && res.2 == run@.names.len(),
        res.0 + res.1 == run@.at,
        feed.title@ == run@.feeds[at as int].title && feed.xml_url@
            == run@.feeds[at as int].xml_url && text::view_opt(feed.html_url)
            == run@.feeds[at as int].html_url && text::view_opt(feed.folder)
            == run@.feeds[at as int].folder,
{
    assert(feed@ == run@.feeds[at as int]);
}

/// After a folder was created the feed at hand is stored in it, and after a feed the next one is
/// at hand.
pub proof fn import_goes_on_with_the_next_feed(
    run: &mut CliImport,
    id: Uuid,
    action: CliImportAction,
    stored: &mut CliImport,
    refused: &mut CliImport,
)
    requires
        old(run).wf(),
        old(run)@.at < old(run)@.feeds.len() <= usize::MAX,
        old(run)@.needs_folder(),
        call_ensures(CliImport::handle, (run, CliImportEvent::FolderCreated(id)), ()),
        call_ensures(CliImport::next_action, (&*final(run),), action),
        call_ensures(CliImport::handle, (stored, CliImportEvent::FeedCreated), ()),
        call_ensures(CliImport::handle, (refused, CliImportEvent::FeedRefused), ()),
    ensures
        action == (CliImportAction::CreateFeed {
            at: old(run)@.at as usize,
            folder_id: Some(id),
        }),
        final(stored)@.at == old(stored)@.at + 1 && final(stored)@.created
            == old(stored)@.created + 1 && final(stored)@.skipped == old(stored)@.skipped,
        final(refused)@.at == old(refused)@.at + 1 && final(refused)@.skipped
            == old(refused)@.skipped + 1 && final(refused)@.created == old(refused)@.created,
{
    created_folder_takes_the_feed(old(run)@, id);
}

/// A demonstration without a feed is told what it needs, and the document of a live one is titled
/// and names neither an owner nor a date.
pub proof fn demonstrations_are_titled(
    count: usize,
    check: Result<(), String>,
    title: &str,
    url: &str,
    site_url: Option<String>,
    res: (OpmlDocument, Vec<FlatFeed>),
)
    requires
        call_ensures(check_demo_feeds, (count,), check),
        call_ensures(live_document, (title, url, &site_url), res),
    ensures
        check matches Err(reason) ==> reason@
            == "OPML file must contain at least one feed for demo-curate"@,
        text::view_opt(res.0.title) == Some("FeedMind live demo subscriptions"@),
        res.0.owner_email is None && res.0.date_created is None,
{
}

} // verus!
