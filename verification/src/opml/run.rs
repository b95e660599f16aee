//! The import of one entry of an OPML document, one question to the database at a time.

use vstd::prelude::*;
use vstd::string::*;

use crate::ids::Uuid;
use crate::opml::import;
use crate::opml::import::{ImportError, ImportResult, ImportStep, StepView};
use crate::text;

verus! {

/// What the import needs done next.
#[derive(Debug)]
pub enum ImportAction {
    /// Tell whether the user has a feed with this address.
    CheckFeed { url: String },
    /// Store a feed.
    InsertFeed { url: String, title: String, site_url: Option<String>, folder_id: Option<Uuid> },
    /// Find the folder of this name in this place.
    FindFolder { name: String, parent_id: Option<Uuid> },
    /// Tell the position behind the last folder in this place.
    NextPosition { parent_id: Option<Uuid> },
    /// Store a folder.
    CreateFolder { name: String, parent_id: Option<Uuid>, position: i32 },
    /// Nothing: everything has been dealt with.
    Finished,
}

/// What came of what the import asked for.
#[derive(Debug)]
pub enum ImportEvent {
    FeedExists(bool),
    FeedInserted,
    FeedRefused(String),
    FolderFound(Option<Uuid>),
    Position(i32),
    FolderCreated(Uuid),
}

/// How far the entry at hand has come.
#[derive(Clone, Copy, Debug, PartialEq, Eq, Structural)]
pub enum Stage {
    /// Nothing is known of it.
    Look,
    /// It is not stored yet.
    Absent,
    /// It is a folder that is not stored yet, and goes to this position.
    Placed(i32),
}

/// The import of one entry of a document.
#[derive(Debug)]
pub struct ImportRun {
    plan: Vec<ImportStep>,
    root: Option<Uuid>,
    at: usize,
    stage: Stage,
    ids: Vec<Option<Uuid>>,
    result: ImportResult,
}

/// What is known of an import.
#[verifier::ext_equal]
pub struct RunView {
    /// The entries to be stored.
    pub plan: Seq<StepView>,
    /// The stored folder that the import goes into.
    pub root: Option<Uuid>,
    /// How many of them have been dealt with.
    pub at: nat,
    pub stage: Stage,
    /// The ids of the folders among those that have been dealt with.
    pub ids: Seq<Option<Uuid>>,
    pub feeds_imported: int,
    pub feeds_skipped: int,
    pub folders_created: int,
    pub errors: Seq<(Seq<char>, Seq<char>)>,
}

/// What is known of what the import needs done.
pub enum ActionView {
    CheckFeed { url: Seq<char> },
    InsertFeed {
        url: Seq<char>,
        title: Seq<char>,
        site_url: Option<Seq<char>>,
        folder_id: Option<Uuid>,
    },
    FindFolder { name: Seq<char>, parent_id: Option<Uuid> },
    NextPosition { parent_id: Option<Uuid> },
    CreateFolder { name: Seq<char>, parent_id: Option<Uuid>, position: i32 },
    Finished,
}

impl View for ImportAction {
    type V = ActionView;

    open spec fn view(&self) -> ActionView {
        match self {
            ImportAction::CheckFeed { url } => ActionView::CheckFeed { url: url@ },
            ImportAction::InsertFeed { url, title, site_url, folder_id } => ActionView::InsertFeed {
                url: url@,
                title: title@,
                site_url: text::view_opt(*site_url),
                folder_id: *folder_id,
            },
            ImportAction::FindFolder { name, parent_id } => ActionView::FindFolder {
                name: name@,
                parent_id: *parent_id,
            },
            ImportAction::NextPosition { parent_id } => ActionView::NextPosition {
                parent_id: *parent_id,
            },
            ImportAction::CreateFolder { name, parent_id, position } => ActionView::CreateFolder {
                name: name@,
                parent_id: *parent_id,
                position: *position,
            },
            ImportAction::Finished => ActionView::Finished,
        }
    }
}

/// The errors of an import.
pub open spec fn error_views(errors: Seq<ImportError>) -> Seq<(Seq<char>, Seq<char>)> {
    errors.map_values(|e: ImportError| (e.url@, e.reason@))
}

/// How many of some entries to be stored are feeds.
pub open spec fn feed_steps(plan: Seq<StepView>) -> nat
    decreases plan.len(),
{
    if plan.len() == 0 {
        0
    } else {
        feed_steps(plan.drop_last()) + if plan.last() is Feed {
            1nat
        } else {
            0nat
        }
    }
}

impl RunView {
    /// The start of an import into a stored folder, or to the top.
    pub open spec fn start(plan: Seq<StepView>, root: Option<Uuid>) -> RunView {
        RunView {
            plan,
            root,
            at: 0,
            stage: Stage::Look,
            ids: Seq::empty(),
            feeds_imported: 0,
            feeds_skipped: 0,
            folders_created: 0,
            errors: Seq::empty(),
        }
    }

    /// The id of the folder at a place among those that have been dealt with, or else of the
    /// folder that the import goes into.
    pub open spec fn folder_at(self, place: Option<usize>) -> Option<Uuid> {
        match place {
            Some(p) => self.ids[p as int],
            None => self.root,
        }
    }

    /// What the import needs done next.
    pub open spec fn asks(self) -> ActionView {
        if self.at >= self.plan.len() {
            ActionView::Finished
        } else {
            match (self.plan[self.at as int], self.stage) {
                (StepView::Feed { url, .. }, Stage::Look) => ActionView::CheckFeed { url },
                (StepView::Feed { url, title, html_url, parent }, _) => ActionView::InsertFeed {
                    url,
                    title,
                    site_url: html_url,
                    folder_id: self.folder_at(parent),
                },
                (StepView::Folder { name, parent }, Stage::Look) => ActionView::FindFolder {
                    name,
                    parent_id: self.folder_at(parent),
                },
                (StepView::Folder { name, parent }, Stage::Absent) => ActionView::NextPosition {
                    parent_id: self.folder_at(parent),
                },
                (
                    StepView::Folder { name, parent },
                    Stage::Placed(position),
                ) => ActionView::CreateFolder {
                    name,
                    parent_id: self.folder_at(parent),
                    position,
                },
            }
        }
    }

    /// Whether an event is what comes of what the import asked for.
    pub open spec fn expects(self, event: ImportEvent) -> bool {
        match event {
            ImportEvent::FeedExists(_) => self.asks() is CheckFeed,
            ImportEvent::FeedInserted => self.asks() is InsertFeed,
            ImportEvent::FeedRefused(_) => self.asks() is InsertFeed,
            ImportEvent::FolderFound(_) => self.asks() is FindFolder,
            ImportEvent::Position(_) => self.asks() is NextPosition,
            ImportEvent::FolderCreated(_) => self.asks() is CreateFolder,
        }
    }

    /// The import with the entry at hand dealt with.
    pub open spec fn next(self, id: Option<Uuid>) -> RunView {
        RunView { at: self.at + 1, stage: Stage::Look, ids: self.ids.push(id), ..self }
    }

    /// The import after an event.
    pub open spec fn after(self, event: ImportEvent) -> RunView {
        match event {
            ImportEvent::FeedExists(exists) => if exists {
                RunView { feeds_skipped: self.feeds_skipped + 1, ..self.next(None) }
            } else {
                RunView { stage: Stage::Absent, ..self }
            },
            ImportEvent::FeedInserted => RunView {
                feeds_imported: self.feeds_imported + 1,
                ..self.next(None)
            },
            ImportEvent::FeedRefused(reason) => RunView {
                errors: self.errors.push((self.plan[self.at as int]->url, reason@)),
                ..self.next(None)
            },
            ImportEvent::FolderFound(found) => match found {
                Some(id) => self.next(Some(id)),
                None => RunView { stage: Stage::Absent, ..self },
            },
            ImportEvent::Position(position) => RunView { stage: Stage::Placed(position), ..self },
            ImportEvent::FolderCreated(id) => RunView {
                folders_created: self.folders_created + 1,
                ..self.next(Some(id))
            },
        }
    }

    /// Every entry that has been dealt with is accounted for: each feed was imported, was
    /// skipped or has an error, each folder has an id, and no more folders were created than
    /// there are.
    pub open spec fn accounted(self) -> bool {
        &&& self.at <= self.plan.len()
        &&& self.ids.len() == self.at
        &&& self.feeds_imported >= 0 && self.feeds_skipped >= 0 && self.folders_created >= 0
        &&& self.feeds_imported + self.feeds_skipped + self.errors.len() == feed_steps(
            self.plan.take(self.at as int),
        )
        &&& self.folders_created + feed_steps(self.plan.take(self.at as int)) <= self.at
        &&& forall|i: int|
            0 <= i < self.at ==> ((#[trigger] self.plan[i]) is Folder ==> self.ids[i] is Some)
        &&& self.stage is Placed ==> self.at < self.plan.len()
            && self.plan[self.at as int] is Folder
    }

    /// A bound on the events that are still to come.
    pub open spec fn left(self) -> int {
        3 * (self.plan.len() - self.at) - match self.stage {
            Stage::Look => 0int,
            Stage::Absent => 1int,
            Stage::Placed(_) => 2int,
        }
    }
}

impl View for ImportRun {
    type V = RunView;

    closed spec fn view(&self) -> RunView {
        RunView {
            plan: import::step_views(self.plan@),
            root: self.root,
            at: self.at as nat,
            stage: self.stage,
            ids: self.ids@,
            feeds_imported: self.result.feeds_imported as int,
            feeds_skipped: self.result.feeds_skipped as int,
            folders_created: self.result.folders_created as int,
            errors: error_views(self.result.errors@),
        }
    }
}

impl ImportRun {
    /// Everything dealt with is accounted for, and every entry goes into a folder before it.
    pub closed spec fn wf(self) -> bool {
        &&& self@.accounted()
        &&& import::parents_first(self.plan@)
        &&& self.plan@.len() <= i64::MAX
    }

    /// An import that is well formed accounts for everything that it has dealt with.
    pub proof fn is_accounted_for(self)
        requires
            self.wf(),
        ensures
            self@.accounted(),
    {
    }

    /// The import of some entries into a stored folder, or to the top, none of them dealt with
    /// yet.
    pub fn new(plan: Vec<ImportStep>, parent_folder_id: Option<Uuid>) -> (res: Self)
        requires
            import::parents_first(plan@),
            plan@.len() <= i64::MAX,
        ensures
            res.wf(),
            res@ == RunView::start(import::step_views(plan@), parent_folder_id),
    {
        let res: ImportRun = ImportRun {
            plan,
            root: parent_folder_id,
            at: 0,
            stage: Stage::Look,
            ids: Vec::new(),
            result: ImportResult {
                feeds_imported: 0,
                feeds_skipped: 0,
                folders_created: 0,
                errors: Vec::new(),
            },
        };
        proof {
            assert(res@.plan.take(0) =~= Seq::<StepView>::empty());
            assert(res@ =~= RunView::start(import::step_views(plan@), parent_folder_id));
        }
        res
    }

    fn folder_id(&self, place: Option<usize>) -> (res: Option<Uuid>)
        requires
            place matches Some(p) ==> p < self.ids@.len(),
        ensures
            res == self@.folder_at(place),
    {
        match place {
            Some(p) => self.ids[p],
            None => self.root,
        }
    }

    /// What the import needs done next.
    pub fn next_action(&self) -> (res: ImportAction)
        requires
            self.wf(),
        ensures
            res@ == self@.asks(),
    {
        if self.at >= self.plan.len() {
            return ImportAction::Finished;
        }
        proof {
            assert(self.plan@[self.at as int]@ == self@.plan[self.at as int]);
            assert(self.plan@[self.at as int].parent_of() matches Some(p) ==> p < self.at);
        }
        match &self.plan[self.at] {
            ImportStep::Feed { url, title, html_url, parent } => {
                match self.stage {
                    Stage::Look => ImportAction::CheckFeed { url: url.clone() },
                    _ => ImportAction::InsertFeed {
                        url: url.clone(),
                        title: title.clone(),
                        site_url: text::clone_opt(html_url),
                        folder_id: self.folder_id(*parent),
                    },
                }
            },
            ImportStep::Folder { name, parent } => {
                let parent_id: Option<Uuid> = self.folder_id(*parent);
                match self.stage {
                    Stage::Look => ImportAction::FindFolder { name: name.clone(), parent_id },
                    Stage::Absent => ImportAction::NextPosition { parent_id },
                    Stage::Placed(position) => ImportAction::CreateFolder {
                        name: name.clone(),
                        parent_id,
                        position,
                    },
                }
            },
        }
    }

    fn advance(&mut self, id: Option<Uuid>)
        requires
            old(self).at < old(self).plan.len(),
        ensures
            final(self)@ == old(self)@.next(id),
            final(self).plan == old(self).plan,
            final(self).result == old(self).result,
    {
        self.at = self.at + 1;
        self.stage = Stage::Look;
        self.ids.push(id);
    }

    /// Takes in what came of what the import asked for.
    pub fn handle(&mut self, event: ImportEvent)
        requires
            old(self).wf(),
            old(self)@.expects(event),
        ensures
            final(self).wf(),
            final(self)@ == old(self)@.after(event),
            0 <= final(self)@.left() < old(self)@.left(),
    {
        let ghost before = self@;
        proof {
            assert(self.plan@[self.at as int]@ == before.plan[self.at as int]);
            assert(before.errors.len() == self.result.errors@.len());
            event_keeps_account(before, event);
        }
        match event {
            ImportEvent::FeedExists(exists) => {
                if exists {
                    self.advance(None);
                    self.result.feeds_skipped = self.result.feeds_skipped + 1;
                } else {
                    self.stage = Stage::Absent;
                }
            },
            ImportEvent::FeedInserted => {
                self.advance(None);
                self.result.feeds_imported = self.result.feeds_imported + 1;
            },
            ImportEvent::FeedRefused(reason) => {
                let url: String = match &self.plan[self.at] {
                    ImportStep::Feed { url, .. } => url.clone(),
                    ImportStep::Folder { name, .. } => name.clone(),
                };
                self.advance(None);
                self.result.errors.push(ImportError { url, reason });
            },
            ImportEvent::FolderFound(found) => {
                match found {
                    Some(id) => {
                        self.advance(Some(id));
                    },
                    None => {
                        self.stage = Stage::Absent;
                    },
                }
            },
            ImportEvent::Position(position) => {
                self.stage = Stage::Placed(position);
            },
            ImportEvent::FolderCreated(id) => {
                self.advance(Some(id));
                self.result.folders_created = self.result.folders_created + 1;
            },
        }
        proof {
            assert(self@ =~= before.after(event));
        }
    }

    /// What the import did.
    pub fn into_result(self) -> (res: ImportResult)
        ensures
            res.feeds_imported == self@.feeds_imported,
            res.feeds_skipped == self@.feeds_skipped,
            res.folders_created == self@.folders_created,
            error_views(res.errors@) == self@.errors,
    {
        self.result
    }
}

/// Every event leaves an import accounted for.
pub proof fn event_keeps_account(run: RunView, event: ImportEvent)
    requires
        run.accounted(),
        run.expects(event),
    ensures
        run.after(event).accounted(),
        0 <= run.after(event).left() < run.left(),
{
    let n = run.at as int;
    let next = run.after(event);
    assert(run.plan.take(n + 1).drop_last() =~= run.plan.take(n));
    assert(run.plan.take(n + 1).last() == run.plan[n]);
    assert forall|i: int| 0 <= i < next.at && (#[trigger] next.plan[i]) is Folder implies
        next.ids[i] is Some by {
        assert(next.plan[i] == run.plan[i]);
    }
}

/// When an import has finished, every feed that it was to store was imported, was skipped
/// because it was there, or has an error.
pub proof fn finished_import_accounts_for_every_feed(run: RunView)
    requires
        run.accounted(),
        run.asks() is Finished,
    ensures
        run.feeds_imported + run.feeds_skipped + run.errors.len() == feed_steps(run.plan),
        run.folders_created <= run.plan.len() - feed_steps(run.plan),
{
    assert(run.plan.take(run.at as int) =~= run.plan);
}

impl ImportResult {
    /// An import that has done nothing.
    pub fn empty() -> (res: Self)
        ensures
            res.feeds_imported == 0,
            res.feeds_skipped == 0,
            res.folders_created == 0,
            res.errors@.len() == 0,
    {
        ImportResult {
            feeds_imported: 0,
            feeds_skipped: 0,
            folders_created: 0,
            errors: Vec::new(),
        }
    }

    /// Whether the counts of two imports can be summed up.
    pub open spec fn fits_with(self, other: ImportResult) -> bool {
        &&& i64::MIN <= self.feeds_imported + other.feeds_imported <= i64::MAX
        &&& i64::MIN <= self.feeds_skipped + other.feeds_skipped <= i64::MAX
        &&& i64::MIN <= self.folders_created + other.folders_created <= i64::MAX
    }

    /// Counts in the import of one more entry of the document.
    pub fn absorb(&mut self, mut other: ImportResult)
        requires
            old(self).fits_with(other),
        ensures
            final(self).feeds_imported == old(self).feeds_imported + other.feeds_imported,
            final(self).feeds_skipped == old(self).feeds_skipped + other.feeds_skipped,
            final(self).folders_created == old(self).folders_created + other.folders_created,
            final(self).errors@ == old(self).errors@ + other.errors@,
    {
        self.feeds_imported = self.feeds_imported + other.feeds_imported;
        self.feeds_skipped = self.feeds_skipped + other.feeds_skipped;
        self.folders_created = self.folders_created + other.folders_created;
        self.errors.append(&mut other.errors);
    }

    /// Notes that the import of one entry of the document failed as a whole. What it had
    /// done by then is not counted.
    pub fn note_failure(&mut self, text: &str, reason: String)
        ensures
            final(self).feeds_imported == old(self).feeds_imported,
            final(self).feeds_skipped == old(self).feeds_skipped,
            final(self).folders_created == old(self).folders_created,
            error_views(final(self).errors@) == error_views(old(self).errors@).push(
                (text@, reason@),
            ),
    {
        let ghost before = self.errors@;
        self.errors.push(ImportError { url: text.to_string(), reason });
        proof {
            assert(error_views(self.errors@) =~= error_views(before).push((text@, reason@)));
        }
    }
}

/// A feed is looked for by its address. One that is there is skipped, and one that is not is
/// stored with its title, its page and its folder, and counted, or noted with the reason where
/// it was refused.
pub proof fn feed_is_stored_once(
    run: RunView,
    url: Seq<char>,
    title: Seq<char>,
    html_url: Option<Seq<char>>,
    parent: Option<usize>,
    reason: String,
)
    requires
        run.at < run.plan.len(),
        run.plan[run.at as int] == (StepView::Feed { url, title, html_url, parent }),
        run.stage == Stage::Look,
    ensures
        run.asks() == (ActionView::CheckFeed { url }),
        ({
            let known = run.after(ImportEvent::FeedExists(true));
            &&& known.at == run.at + 1 && known.stage == Stage::Look
            &&& known.feeds_skipped == run.feeds_skipped + 1
            &&& known.feeds_imported == run.feeds_imported && known.errors == run.errors
        }),
        ({
            let absent = run.after(ImportEvent::FeedExists(false));
            let folder_id = match parent {
                Some(p) => run.ids[p as int],
                None => run.root,
            };
            let stored = absent.after(ImportEvent::FeedInserted);
            let refused = absent.after(ImportEvent::FeedRefused(reason));
            &&& absent.at == run.at
            &&& absent.asks() == (ActionView::InsertFeed {
                url,
                title,
                site_url: html_url,
                folder_id,
            })
            &&& stored.at == run.at + 1 && stored.stage == Stage::Look
            &&& stored.feeds_imported == run.feeds_imported + 1
            &&& stored.feeds_skipped == run.feeds_skipped && stored.errors == run.errors
            &&& refused.at == run.at + 1 && refused.stage == Stage::Look
            &&& refused.errors == run.errors.push((url, reason@))
            &&& refused.feeds_imported == run.feeds_imported
            &&& refused.feeds_skipped == run.feeds_skipped
        }),
{
}

/// A folder is looked for by its name in its place. One that is there is used, and one that is not
/// is created there, behind the last one, and counted. What it holds goes into it either way.
pub proof fn folder_is_created_once(
    run: RunView,
    name: Seq<char>,
    parent: Option<usize>,
    found: Uuid,
    position: i32,
    created: Uuid,
)
    requires
        run.at < run.plan.len(),
        run.ids.len() == run.at,
        run.plan[run.at as int] == (StepView::Folder { name, parent }),
        run.stage == Stage::Look,
    ensures
        ({
            let parent_id = match parent {
                Some(p) => run.ids[p as int],
                None => run.root,
            };
            let known = run.after(ImportEvent::FolderFound(Some(found)));
            let absent = run.after(ImportEvent::FolderFound(None));
            let placed = absent.after(ImportEvent::Position(position));
            let made = placed.after(ImportEvent::FolderCreated(created));
            &&& run.asks() == (ActionView::FindFolder { name, parent_id })
            &&& known.at == run.at + 1 && known.stage == Stage::Look
            &&& known.ids[run.at as int] == Some(found)
            &&& known.folders_created == run.folders_created
            &&& absent.asks() == (ActionView::NextPosition { parent_id })
            &&& placed.asks() == (ActionView::CreateFolder { name, parent_id, position })
            &&& made.at == run.at + 1 && made.stage == Stage::Look
            &&& made.ids[run.at as int] == Some(created)
            &&& made.folders_created == run.folders_created + 1
            &&& made.feeds_imported == run.feeds_imported && made.feeds_skipped
                == run.feeds_skipped && made.errors == run.errors
        }),
{
}

/// What an import asks for next says all that is to be stored.
pub proof fn import_asks_for_all_that_is_planned(run: ImportRun, action: ImportAction)
    requires
        run@.at < run@.plan.len(),
        call_ensures(ImportRun::next_action, (&run,), action),
    ensures
        run@.plan[run@.at as int] matches StepView::Feed { url, title, html_url, parent } ==> {
            &&& run@.stage == Stage::Look ==> (action matches ImportAction::CheckFeed { url: asked }
                && asked@ == url)
            &&& run@.stage != Stage::Look ==> (action matches ImportAction::InsertFeed {
                url: asked,
                title: named,
                site_url,
                folder_id,
            } && asked@ == url && named@ == title && text::view_opt(site_url) == html_url
                && folder_id == (match parent {
                Some(p) => run@.ids[p as int],
                None => run@.root,
            }))
        },
        run@.plan[run@.at as int] matches StepView::Folder { name, parent } ==> {
            let place = match parent {
                Some(p) => run@.ids[p as int],
                None => run@.root,
            };
            &&& run@.stage == Stage::Look ==> (action matches ImportAction::FindFolder {
                name: asked,
                parent_id,
            } && asked@ == name && parent_id == place)
            &&& run@.stage == Stage::Absent ==> action == (ImportAction::NextPosition {
                parent_id: place,
            })
            &&& run@.stage matches Stage::Placed(at) ==> (
            action matches ImportAction::CreateFolder { name: asked, parent_id, position } && asked@
                == name && parent_id == place && position == at)
        },
{
}

/// What an import did is told as it was counted.
pub proof fn import_tells_what_it_did(run: ImportRun, res: ImportResult, i: int)
    requires
        call_ensures(ImportRun::into_result, (run,), res),
        0 <= i < run@.errors.len(),
    ensures
        res.feeds_imported == run@.feeds_imported,
        res.feeds_skipped == run@.feeds_skipped,
        res.folders_created == run@.folders_created,
        res.errors@.len() == run@.errors.len(),
        run@.errors[i] == (res.errors@[i].url@, res.errors@[i].reason@),
{
    assert(error_views(res.errors@).len() == res.errors@.len());
    assert(error_views(res.errors@)[i] == (res.errors@[i].url@, res.errors@[i].reason@));
}

/// Counting in one more import adds its numbers to those so far, each to its own, and lists its
/// errors behind them. A failure adds one error, with what failed and why, and no number.
pub proof fn imports_are_summed_up(
    total: &mut ImportResult,
    other: ImportResult,
    noted: &mut ImportResult,
    entry: &str,
    reason: String,
    none: ImportResult,
)
    requires
        call_ensures(ImportResult::absorb, (total, other), ()),
        call_ensures(ImportResult::note_failure, (noted, entry, reason), ()),
        call_ensures(ImportResult::empty, (), none),
    ensures
        final(total).feeds_imported - old(total).feeds_imported == other.feeds_imported,
        final(total).feeds_skipped - old(total).feeds_skipped == other.feeds_skipped,
        final(total).folders_created - old(total).folders_created == other.folders_created,
        final(total).errors@ == old(total).errors@ + other.errors@,
        final(noted).errors@.len() == old(noted).errors@.len() + 1,
        final(noted).errors@.last().url@ == entry@,
        final(noted).errors@.last().reason@ == reason@,
        final(noted).feeds_imported == old(noted).feeds_imported,
        final(noted).feeds_skipped == old(noted).feeds_skipped,
        final(noted).folders_created == old(noted).folders_created,
        none.feeds_imported == 0 && none.feeds_skipped == 0 && none.folders_created == 0
            && none.errors@.len() == 0,
{
    let after = error_views(final(noted).errors@);
    assert(after.len() == final(noted).errors@.len());
    assert(error_views(old(noted).errors@).len() == old(noted).errors@.len());
    assert(after.last() == (
        final(noted).errors@.last().url@,
        final(noted).errors@.last().reason@,
    ));
}

/// A feed that is not stored yet is stored next, as planned, and a folder that was created takes
/// what is planned to go into it.
pub proof fn import_stores_what_is_absent(
    run: &mut ImportRun,
    action: ImportAction,
    made: &mut ImportRun,
    id: Uuid,
)
    requires
        old(run)@.at < old(run)@.plan.len(),
        old(run)@.plan[old(run)@.at as int] is Feed,
        call_ensures(ImportRun::handle, (run, ImportEvent::FeedExists(false)), ()),
        call_ensures(ImportRun::next_action, (&*final(run),), action),
        old(made)@.ids.len() == old(made)@.at,
        call_ensures(ImportRun::handle, (made, ImportEvent::FolderCreated(id)), ()),
    ensures
        ({
            let step = old(run)@.plan[old(run)@.at as int];
            action matches ImportAction::InsertFeed { url, title, site_url, folder_id } && url@
                == step->url && title@ == step->title && text::view_opt(site_url)
                == step->html_url && folder_id == (match step->Feed_parent {
                Some(p) => old(run)@.ids[p as int],
                None => old(run)@.root,
            })
        }),
        final(made)@.at == old(made)@.at + 1,
        final(made)@.ids[old(made)@.at as int] == Some(id),
        final(made)@.folders_created == old(made)@.folders_created + 1,
{
}

} // verus!
