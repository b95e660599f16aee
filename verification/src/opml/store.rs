//! What the database holds of the feeds and folders of one user, and why importing an entry
//! of a document a second time adds nothing.

use vstd::prelude::*;

use crate::ids::Uuid;
use crate::opml::import;
use crate::opml::import::{ImportStep, StepView};
use crate::opml::run;
use crate::opml::run::{ActionView, ImportEvent, RunView, Stage};

verus! {

/// A feed that is stored.
pub struct StoredFeed {
    pub url: Seq<char>,
    pub title: Seq<char>,
    pub site_url: Option<Seq<char>>,
    pub folder_id: Option<Uuid>,
}

/// A folder that is stored.
pub struct StoredFolder {
    pub id: Uuid,
    pub name: Seq<char>,
    pub parent_id: Option<Uuid>,
    pub position: i32,
}

/// The feeds and folders that are stored for a user.
#[verifier::ext_equal]
pub struct Store {
    pub feeds: Seq<StoredFeed>,
    pub folders: Seq<StoredFolder>,
}

/// Whether a folder of this name is among some entries to be stored.
pub open spec fn holds_name(plan: Seq<StepView>, name: Seq<char>) -> bool {
    exists|k: int|
        0 <= k < plan.len() && (#[trigger] plan[k]) is Folder && plan[k]->name == name
}

impl StoredFolder {
    /// Whether the folder has this name and is in this place.
    pub open spec fn is_at(self, name: Seq<char>, parent_id: Option<Uuid>) -> bool {
        self.name == name && self.parent_id == parent_id
    }
}

impl Store {
    /// Whether the folders of some entries to be stored can be told apart: no two folders of one
    /// place have the same name, where that is the name of such an entry.
    pub open spec fn tells_apart(self, plan: Seq<StepView>) -> bool {
        forall|i: int, j: int|
            0 <= i < self.folders.len() && 0 <= j < self.folders.len() && i != j && (
            #[trigger] self.folders[i]).is_at(
                (#[trigger] self.folders[j]).name,
                self.folders[j].parent_id,
            ) ==> !holds_name(plan, self.folders[i].name)
    }

    /// Whether a feed with this address is stored.
    pub open spec fn has_feed(self, url: Seq<char>) -> bool {
        exists|i: int| 0 <= i < self.feeds.len() && (#[trigger] self.feeds[i]).url == url
    }

    /// Whether a folder with this id has this name and is in this place.
    pub open spec fn has_folder(self, id: Uuid, name: Seq<char>, parent_id: Option<Uuid>) -> bool {
        exists|i: int|
            0 <= i < self.folders.len() && (#[trigger] self.folders[i]).is_at(name, parent_id)
                && self.folders[i].id == id
    }

    /// Whether no folder of this name is in this place.
    pub open spec fn lacks_folder(self, name: Seq<char>, parent_id: Option<Uuid>) -> bool {
        forall|i: int|
            0 <= i < self.folders.len() ==> !(#[trigger] self.folders[i]).is_at(name, parent_id)
    }

    /// Whether this is the position behind the last folder in a place, and 0 where there is
    /// none.
    pub open spec fn is_next_position(self, parent_id: Option<Uuid>, position: i32) -> bool {
        &&& forall|i: int|
            0 <= i < self.folders.len() && (#[trigger] self.folders[i]).parent_id == parent_id
                ==> self.folders[i].position < position
        &&& if forall|i: int|
            0 <= i < self.folders.len() ==> (#[trigger] self.folders[i]).parent_id != parent_id {
            position == 0
        } else {
            exists|i: int|
                0 <= i < self.folders.len() && (#[trigger] self.folders[i]).parent_id == parent_id
                    && self.folders[i].position == position - 1
        }
    }

    /// Whether an event can come of what an import asks for.
    pub open spec fn answers(self, action: ActionView, event: ImportEvent) -> bool {
        match (action, event) {
            (ActionView::CheckFeed { url }, ImportEvent::FeedExists(exists)) => exists
                == self.has_feed(url),
            (ActionView::InsertFeed { .. }, ImportEvent::FeedInserted) => true,
            (ActionView::InsertFeed { .. }, ImportEvent::FeedRefused(_)) => true,
            (ActionView::FindFolder { name, parent_id }, ImportEvent::FolderFound(found)) => {
                match found {
                    Some(id) => self.has_folder(id, name, parent_id),
                    None => self.lacks_folder(name, parent_id),
                }
            },
            (
                ActionView::NextPosition { parent_id },
                ImportEvent::Position(position),
            ) => self.is_next_position(parent_id, position),
            (ActionView::CreateFolder { .. }, ImportEvent::FolderCreated(id)) => forall|i: int|
                0 <= i < self.folders.len() ==> (#[trigger] self.folders[i]).id != id,
            _ => false,
        }
    }

    /// What is stored after an event that came of what an import asked for.
    pub open spec fn after(self, action: ActionView, event: ImportEvent) -> Store {
        match (action, event) {
            (
                ActionView::InsertFeed { url, title, site_url, folder_id },
                ImportEvent::FeedInserted,
            ) => Store {
                feeds: self.feeds.push(StoredFeed { url, title, site_url, folder_id }),
                ..self
            },
            (
                ActionView::CreateFolder { name, parent_id, position },
                ImportEvent::FolderCreated(id),
            ) => Store {
                folders: self.folders.push(StoredFolder { id, name, parent_id, position }),
                ..self
            },
            _ => self,
        }
    }
}

/// Whether an import can take this course: each event comes of what the import asks for when
/// it happens, given what is stored then.
pub open spec fn takes_course(run: RunView, store: Store, events: Seq<ImportEvent>) -> bool
    decreases events.len(),
{
    events.len() == 0 || {
        let event = events[0];
        &&& run.expects(event)
        &&& store.answers(run.asks(), event)
        &&& takes_course(run.after(event), store.after(run.asks(), event), events.drop_first())
    }
}

/// An import after some events.
pub open spec fn run_after(run: RunView, events: Seq<ImportEvent>) -> RunView
    decreases events.len(),
{
    if events.len() == 0 {
        run
    } else {
        run_after(run.after(events[0]), events.drop_first())
    }
}

/// What is stored after some events of an import.
pub open spec fn store_after(run: RunView, store: Store, events: Seq<ImportEvent>) -> Store
    decreases events.len(),
{
    if events.len() == 0 {
        store
    } else {
        store_after(
            run.after(events[0]),
            store.after(run.asks(), events[0]),
            events.drop_first(),
        )
    }
}

/// The place of the folder that an entry to be stored goes into.
pub open spec fn parent_place(step: StepView) -> Option<usize> {
    match step {
        StepView::Feed { parent, .. } => parent,
        StepView::Folder { parent, .. } => parent,
    }
}

/// Whether everything that an import has dealt with is stored, but for feeds that were
/// refused.
pub open spec fn is_stored(run: RunView, store: Store) -> bool {
    &&& run.errors.len() == 0 ==> forall|i: int|
        0 <= i < run.at && (#[trigger] run.plan[i]) is Feed ==> store.has_feed(run.plan[i]->url)
    &&& forall|i: int|
        0 <= i < run.at && (#[trigger] run.plan[i]) is Folder ==> run.ids[i] is Some
            && store.has_folder(
            run.ids[i]->0,
            run.plan[i]->name,
            run.folder_at(run.plan[i]->Folder_parent),
        )
}

/// What holds of an import and of what is stored all along.
spec fn is_on_course(run: RunView, store: Store) -> bool {
    &&& run.accounted()
    &&& store.tells_apart(run.plan)
    &&& is_stored(run, store)
    &&& forall|i: int| 0 <= i < run.at && (#[trigger] run.plan[i]) is Feed ==> run.ids[i] is None
    &&& run.at < run.plan.len() && run.plan[run.at as int] is Folder && run.stage != Stage::Look
        ==> store.lacks_folder(
        run.plan[run.at as int]->name,
        run.folder_at(run.plan[run.at as int]->Folder_parent),
    )
    &&& forall|i: int|
        0 <= i < run.plan.len() ==> (parent_place(#[trigger] run.plan[i]) matches Some(p) ==> p
            < i)
}

proof fn lemma_stays_on_course(run: RunView, store: Store, event: ImportEvent)
    requires
        is_on_course(run, store),
        run.expects(event),
        store.answers(run.asks(), event),
    ensures
        is_on_course(run.after(event), store.after(run.asks(), event)),
{
    let next = run.after(event);
    let kept = store.after(run.asks(), event);
    let at = run.at as int;
    run::event_keeps_account(run, event);
    assert forall|url: Seq<char>| store.has_feed(url) implies #[trigger] kept.has_feed(url) by {
        let i = choose|i: int| 0 <= i < store.feeds.len() && (#[trigger] store.feeds[i]).url == url;
        assert(kept.feeds[i] == store.feeds[i]);
    }
    assert forall|id: Uuid, name: Seq<char>, parent_id: Option<Uuid>|
        store.has_folder(id, name, parent_id) implies #[trigger] kept.has_folder(
        id,
        name,
        parent_id,
    ) by {
        let i = choose|i: int|
            0 <= i < store.folders.len() && (#[trigger] store.folders[i]).is_at(name, parent_id)
                && store.folders[i].id == id;
        assert(kept.folders[i] == store.folders[i]);
    }
    if event is FeedInserted {
        assert(kept.feeds[store.feeds.len() as int].url == run.plan[at]->url);
        assert(kept.has_feed(run.plan[at]->url));
    }
    if event is FolderCreated {
        let last = store.folders.len() as int;
        assert(kept.folders[last].is_at(
            run.plan[at]->name,
            run.folder_at(run.plan[at]->Folder_parent),
        ));
    }
    assert forall|i: int| 0 <= i < next.at && (#[trigger] next.plan[i]) is Folder implies
        next.ids[i] is Some && kept.has_folder(
        next.ids[i]->0,
        next.plan[i]->name,
        next.folder_at(next.plan[i]->Folder_parent),
    ) by {
        assert(parent_place(run.plan[i]) matches Some(p) ==> p < i);
        assert(next.folder_at(next.plan[i]->Folder_parent) == run.folder_at(
            run.plan[i]->Folder_parent,
        ));
        if i < run.at {
            assert(next.ids[i] == run.ids[i]);
        }
    }
    assert forall|i: int| 0 <= i < next.plan.len() implies (parent_place(
        #[trigger] next.plan[i],
    ) matches Some(p) ==> p < i) by {
        assert(next.plan[i] == run.plan[i]);
    }
}

proof fn lemma_course_ends_on_course(run: RunView, store: Store, events: Seq<ImportEvent>)
    requires
        is_on_course(run, store),
        takes_course(run, store, events),
    ensures
        is_on_course(run_after(run, events), store_after(run, store, events)),
        run_after(run, events).plan == run.plan,
        run_after(run, events).root == run.root,
    decreases events.len(),
{
    if events.len() > 0 {
        lemma_stays_on_course(run, store, events[0]);
        lemma_course_ends_on_course(
            run.after(events[0]),
            store.after(run.asks(), events[0]),
            events.drop_first(),
        );
    }
}

proof fn lemma_starts_on_course(steps: Seq<ImportStep>, root: Option<Uuid>, store: Store)
    requires
        import::parents_first(steps),
        store.tells_apart(import::step_views(steps)),
    ensures
        is_on_course(RunView::start(import::step_views(steps), root), store),
{
    let start = RunView::start(import::step_views(steps), root);
    assert(start.plan.take(0) =~= Seq::<StepView>::empty());
    assert forall|i: int| 0 <= i < start.plan.len() implies (parent_place(
        #[trigger] start.plan[i],
    ) matches Some(p) ==> p < i) by {
        assert(start.plan[i] == steps[i]@);
        assert(steps[i].parent_of() == parent_place(start.plan[i]));
    }
}

/// An import that has finished without an error has left every one of its feeds and folders
/// stored.
pub proof fn finished_import_is_stored(
    steps: Seq<ImportStep>,
    root: Option<Uuid>,
    store: Store,
    events: Seq<ImportEvent>,
)
    requires
        import::parents_first(steps),
        store.tells_apart(import::step_views(steps)),
        takes_course(RunView::start(import::step_views(steps), root), store, events),
        run_after(RunView::start(import::step_views(steps), root), events).asks() is Finished,
        run_after(RunView::start(import::step_views(steps), root), events).errors.len() == 0,
    ensures
        ({
            let start = RunView::start(import::step_views(steps), root);
            let end = run_after(start, events);
            let stored = store_after(start, store, events);
            &&& end.at == steps.len()
            &&& is_stored(end, stored)
            &&& stored.tells_apart(import::step_views(steps))
        }),
{
    lemma_starts_on_course(steps, root, store);
    lemma_course_ends_on_course(
        RunView::start(import::step_views(steps), root),
        store,
        events,
    );
}

/// Whether a second import has found, up to where it is, all that a first one has left.
spec fn has_found(second: RunView, first: RunView) -> bool {
    &&& second.accounted()
    &&& second.plan == first.plan
    &&& second.root == first.root
    &&& second.stage == Stage::Look
    &&& second.ids == first.ids.take(second.at as int)
    &&& second.feeds_imported == 0
    &&& second.folders_created == 0
    &&& second.errors.len() == 0
}

proof fn lemma_finds_everything(
    second: RunView,
    first: RunView,
    store: Store,
    events: Seq<ImportEvent>,
)
    requires
        is_on_course(first, store),
        first.at == first.plan.len(),
        first.errors.len() == 0,
        has_found(second, first),
        takes_course(second, store, events),
    ensures
        has_found(run_after(second, events), first),
        store_after(second, store, events) == store,
    decreases events.len(),
{
    if events.len() > 0 {
        let event = events[0];
        let next = second.after(event);
        let at = second.at as int;
        run::event_keeps_account(second, event);
        assert(parent_place(first.plan[at]) matches Some(p) ==> p < at);
        if second.plan[at] is Folder {
            let name = first.plan[at]->name;
            let place = first.folder_at(first.plan[at]->Folder_parent);
            assert(second.folder_at(second.plan[at]->Folder_parent) == place);
            assert(store.has_folder(first.ids[at]->0, name, place));
            assert(holds_name(first.plan, name));
            let i = choose|i: int|
                0 <= i < store.folders.len() && (#[trigger] store.folders[i]).is_at(name, place)
                    && store.folders[i].id == first.ids[at]->0;
            assert(event matches ImportEvent::FolderFound(Some(id)) && id == first.ids[at]->0);
        } else {
            assert(event == ImportEvent::FeedExists(true));
            assert(first.ids[at] is None);
        }
        assert(next.ids =~= first.ids.take(next.at as int));
        lemma_finds_everything(next, first, store, events.drop_first());
    }
}

/// An import of the same entry a second time stores nothing: where a first import has finished
/// without an error, a second one behind it imports no feed and creates no folder, counts as
/// skipped every feed that the first one imported or skipped, meets no error, and leaves what
/// is stored as it is. This is so for an entry at the top and for one in a stored folder. Where
/// two folders of one place share a name that the entry holds, either may be found, and this
/// need not be so.
pub proof fn second_import_adds_nothing(
    steps: Seq<ImportStep>,
    root: Option<Uuid>,
    store: Store,
    first: Seq<ImportEvent>,
    second: Seq<ImportEvent>,
)
    requires
        import::parents_first(steps),
        store.tells_apart(import::step_views(steps)),
        ({
            let start = RunView::start(import::step_views(steps), root);
            let stored = store_after(start, store, first);
            &&& takes_course(start, store, first)
            &&& run_after(start, first).asks() is Finished
            &&& run_after(start, first).errors.len() == 0
            &&& takes_course(start, stored, second)
            &&& run_after(start, second).asks() is Finished
        }),
    ensures
        ({
            let start = RunView::start(import::step_views(steps), root);
            let stored = store_after(start, store, first);
            let done = run_after(start, first);
            let again = run_after(start, second);
            &&& again.feeds_imported == 0
            &&& again.feeds_skipped == done.feeds_imported + done.feeds_skipped
            &&& again.folders_created == 0
            &&& again.errors.len() == 0
            &&& store_after(start, stored, second) == stored
        }),
{
    let start = RunView::start(import::step_views(steps), root);
    let stored = store_after(start, store, first);
    let done = run_after(start, first);
    let again = run_after(start, second);
    lemma_starts_on_course(steps, root, store);
    lemma_course_ends_on_course(start, store, first);
    assert(start.ids =~= done.ids.take(0));
    lemma_finds_everything(start, done, stored, second);
    run::finished_import_accounts_for_every_feed(done);
    run::finished_import_accounts_for_every_feed(again);
}

} // verus!
