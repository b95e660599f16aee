//! How stored folders and feeds become an OPML document.

use vstd::prelude::*;
use vstd::string::*;

use crate::ids::Uuid;
use crate::lists;
use crate::opml::document;
use crate::opml::document::{OpmlDocument, OpmlOutline};
use crate::text;
use crate::time;
use crate::time::Timestamp;

verus! {

/// A folder as it is exported.
#[derive(Debug)]
pub struct FolderForExport {
    pub id: Uuid,
    pub name: String,
    pub parent_id: Option<Uuid>,
}

/// A feed as it is exported.
#[derive(Debug)]
pub struct FeedForExport {
    pub id: Uuid,
    pub url: String,
    pub title: String,
    pub site_url: Option<String>,
    pub folder_id: Option<Uuid>,
}

/// No two folders have the same id.
pub open spec fn distinct_ids(folders: Seq<FolderForExport>) -> bool {
    forall|i: int, j: int|
        0 <= i < folders.len() && 0 <= j < folders.len() && i != j ==> (#[trigger] folders[i]).id
            != (#[trigger] folders[j]).id
}

/// Whether some folder has this id.
pub open spec fn known(folders: Seq<FolderForExport>, id: Uuid) -> bool {
    exists|i: int| 0 <= i < folders.len() && (#[trigger] folders[i]).id == id
}

/// The test for a feed that is in the folder `id`.
pub open spec fn is_in(id: Uuid) -> spec_fn(FeedForExport) -> bool {
    |f: FeedForExport| f.folder_id == Some(id)
}

/// The test for a folder whose parent is the folder `id`.
pub open spec fn is_below(id: Uuid) -> spec_fn(FolderForExport) -> bool {
    |f: FolderForExport| f.parent_id == Some(id)
}

/// The test for a feed that is in no folder, or in one that is not there.
pub open spec fn is_loose(folders: Seq<FolderForExport>) -> spec_fn(FeedForExport) -> bool {
    |f: FeedForExport|
        match f.folder_id {
            Some(id) => !known(folders, id),
            None => true,
        }
}

/// The test for a folder that is shown at the top: it has no parent, and it holds something.
pub open spec fn is_shown(
    folders: Seq<FolderForExport>,
    feeds: Seq<FeedForExport>,
) -> spec_fn(FolderForExport) -> bool {
    |f: FolderForExport|
        f.parent_id is None && feeds.filter(is_in(f.id)).len() + folders.filter(
            is_below(f.id),
        ).len() > 0
}

/// Whether `o` is the entry of a stored feed.
pub open spec fn shows_feed(o: OpmlOutline, feed: FeedForExport) -> bool {
    document::is_feed_entry(o, feed.title@, feed.url@, text::view_opt(feed.site_url))
}

/// Whether `o` is the entry of a stored folder: first its feeds in order, then, down to
/// `depth` levels, the folders in it in order.
pub open spec fn shows_folder(
    o: OpmlOutline,
    folders: Seq<FolderForExport>,
    feeds: Seq<FeedForExport>,
    folder: FolderForExport,
    depth: nat,
) -> bool
    decreases depth,
{
    let inside = feeds.filter(is_in(folder.id));
    let below = folders.filter(is_below(folder.id));
    &&& document::is_folder_entry(o, folder.name@)
    &&& o.children@.len() == inside.len() + if depth == 0 {
        0
    } else {
        below.len()
    }
    &&& forall|i: int| 0 <= i < inside.len() ==> shows_feed(#[trigger] o.children@[i], inside[i])
    &&& depth > 0 ==> forall|j: int|
        0 <= j < below.len() ==> shows_folder(
            o.children@[inside.len() + j],
            folders,
            feeds,
            #[trigger] below[j],
            (depth - 1) as nat,
        )
}

/// Whether some entries show all folders and feeds: first the loose feeds, then each top
/// folder that holds something, both in their order.
pub open spec fn shows_all(
    outlines: Seq<OpmlOutline>,
    folders: Seq<FolderForExport>,
    feeds: Seq<FeedForExport>,
) -> bool {
    let loose = feeds.filter(is_loose(folders));
    let shown = folders.filter(is_shown(folders, feeds));
    &&& outlines.len() == loose.len() + shown.len()
    &&& forall|i: int| 0 <= i < loose.len() ==> shows_feed(#[trigger] outlines[i], loose[i])
    &&& forall|j: int|
        0 <= j < shown.len() ==> shows_folder(
            outlines[loose.len() + j],
            folders,
            feeds,
            #[trigger] shown[j],
            folders.len(),
        )
}

fn is_known(folders: &Vec<FolderForExport>, id: Uuid) -> (res: bool)
    ensures
        res == known(folders@, id),
{
    let mut i: usize = 0;
    while i < folders.len()
        invariant
            i <= folders@.len(),
            forall|j: int| 0 <= j < i ==> (#[trigger] folders@[j]).id != id,
        decreases folders@.len() - i,
    {
        if folders[i].id == id {
            return true;
        }
        i += 1;
    }
    false
}

fn feed_entry(feed: &FeedForExport) -> (res: OpmlOutline)
    ensures
        shows_feed(res, *feed),
{
    OpmlOutline::feed(feed.title.clone(), feed.url.clone(), text::clone_opt(&feed.site_url))
}

/// The entry of the folder at `at`, with everything in it down to `depth` levels.
fn build_folder_outline(
    folders: &Vec<FolderForExport>,
    feeds: &Vec<FeedForExport>,
    at: usize,
    depth: usize,
) -> (res: OpmlOutline)
    requires
        at < folders@.len(),
    ensures
        shows_folder(res, folders@, feeds@, folders@[at as int], depth as nat),
    decreases depth,
{
    let folder: &FolderForExport = &folders[at];
    let id: Uuid = folder.id;
    let ghost inside = feeds@.filter(is_in(id));
    let mut children: Vec<OpmlOutline> = Vec::new();
    let mut i: usize = 0;
    proof {
        lists::lemma_filter_all(feeds@, is_in(id));
    }
    while i < feeds.len()
        invariant
            i <= feeds@.len(),
            children@.len() == feeds@.take(i as int).filter(is_in(id)).len(),
            forall|k: int|
                0 <= k < children@.len() ==> shows_feed(
                    #[trigger] children@[k],
                    feeds@.take(i as int).filter(is_in(id))[k],
                ),
        decreases feeds@.len() - i,
    {
        proof {
            lists::lemma_filter_step(feeds@, i as int, is_in(id));
        }
        let feed: &FeedForExport = &feeds[i];
        if feed.folder_id == Some(id) {
            children.push(feed_entry(feed));
        }
        i += 1;
    }
    let ghost count = inside.len();
    if depth > 0 {
        let ghost below = folders@.filter(is_below(id));
        let ghost first = children@;
        let mut j: usize = 0;
        proof {
            lists::lemma_filter_all(folders@, is_below(id));
        }
        while j < folders.len()
            invariant
                depth > 0,
                j <= folders@.len(),
                count == first.len(),
                children@.len() == count + folders@.take(j as int).filter(is_below(id)).len(),
                forall|k: int| 0 <= k < count ==> #[trigger] children@[k] == first[k],
                forall|k: int|
                    0 <= k < folders@.take(j as int).filter(is_below(id)).len()
                        ==> shows_folder(
                        children@[count + k],
                        folders@,
                        feeds@,
                        #[trigger] folders@.take(j as int).filter(is_below(id))[k],
                        (depth - 1) as nat,
                    ),
            decreases folders@.len() - j,
        {
            proof {
                lists::lemma_filter_step(folders@, j as int, is_below(id));
            }
            if folders[j].parent_id == Some(id) {
                let ghost before = children@;
                let child: OpmlOutline = build_folder_outline(folders, feeds, j, depth - 1);
                children.push(child);
                proof {
                    let old_kept = folders@.take(j as int).filter(is_below(id));
                    let kept = folders@.take(j + 1).filter(is_below(id));
                    assert forall|k: int| 0 <= k < kept.len() implies shows_folder(
                        children@[count + k],
                        folders@,
                        feeds@,
                        #[trigger] kept[k],
                        (depth - 1) as nat,
                    ) by {
                        if k < old_kept.len() {
                            assert(kept[k] == old_kept[k]);
                            assert(children@[count + k] == before[count + k]);
                        }
                    }
                }
            }
            j += 1;
        }
    }
    let mut res: OpmlOutline = OpmlOutline::folder(folder.name.clone());
    res.children = children;
    res
}

/// The entries for the folders and feeds of one user.
pub fn export_outlines(folders: &Vec<FolderForExport>, feeds: &Vec<FeedForExport>) -> (res: Vec<
    OpmlOutline,
>)
    requires
        distinct_ids(folders@),
    ensures
        shows_all(res@, folders@, feeds@),
{
    let mut res: Vec<OpmlOutline> = Vec::new();
    let ghost loose = feeds@.filter(is_loose(folders@));
    let mut i: usize = 0;
    proof {
        lists::lemma_filter_all(feeds@, is_loose(folders@));
    }
    while i < feeds.len()
        invariant
            i <= feeds@.len(),
            res@.len() == feeds@.take(i as int).filter(is_loose(folders@)).len(),
            forall|k: int|
                0 <= k < res@.len() ==> shows_feed(
                    #[trigger] res@[k],
                    feeds@.take(i as int).filter(is_loose(folders@))[k],
                ),
        decreases feeds@.len() - i,
    {
        proof {
            lists::lemma_filter_step(feeds@, i as int, is_loose(folders@));
        }
        let feed: &FeedForExport = &feeds[i];
        let loose_feed: bool = match feed.folder_id {
            Some(id) => !is_known(folders, id),
            None => true,
        };
        if loose_feed {
            res.push(feed_entry(feed));
        }
        i += 1;
    }
    let ghost count = loose.len();
    let ghost first = res@;
    let ghost test = is_shown(folders@, feeds@);
    let mut j: usize = 0;
    proof {
        lists::lemma_filter_all(folders@, test);
    }
    while j < folders.len()
        invariant
            j <= folders@.len(),
            count == first.len(),
            test == is_shown(folders@, feeds@),
            res@.len() == count + folders@.take(j as int).filter(test).len(),
            forall|k: int| 0 <= k < count ==> #[trigger] res@[k] == first[k],
            forall|k: int|
                0 <= k < folders@.take(j as int).filter(test).len() ==> shows_folder(
                    res@[count + k],
                    folders@,
                    feeds@,
                    #[trigger] folders@.take(j as int).filter(test)[k],
                    folders@.len(),
                ),
        decreases folders@.len() - j,
    {
        proof {
            lists::lemma_filter_step(folders@, j as int, test);
        }
        if folders[j].parent_id.is_none() {
            let entry: OpmlOutline = build_folder_outline(folders, feeds, j, folders.len());
            if entry.children.len() > 0 {
                let ghost before = res@;
                res.push(entry);
                proof {
                    let old_kept = folders@.take(j as int).filter(test);
                    let kept = folders@.take(j + 1).filter(test);
                    assert forall|k: int| 0 <= k < kept.len() implies shows_folder(
                        res@[count + k],
                        folders@,
                        feeds@,
                        #[trigger] kept[k],
                        folders@.len(),
                    ) by {
                        if k < old_kept.len() {
                            assert(kept[k] == old_kept[k]);
                            assert(res@[count + k] == before[count + k]);
                        }
                    }
                }
            }
        }
        j += 1;
    }
    res
}

/// The document for the folders and feeds of one user, as of now.
pub fn export_document(
    email: &str,
    now: Timestamp,
    folders: &Vec<FolderForExport>,
    feeds: &Vec<FeedForExport>,
) -> (res: OpmlDocument)
    requires
        distinct_ids(folders@),
        now.has_four_digit_year(),
    ensures
        text::view_opt(res.title) == Some("FeedMind Export"@),
        text::view_opt(res.owner_email) == Some(email@),
        text::view_opt(res.date_created) == Some(time::rfc2822_text(now)),
        shows_all(res.outlines@, folders@, feeds@),
{
    let mut doc: OpmlDocument = OpmlDocument::new(Some("FeedMind Export".to_string()));
    doc.owner_email = Some(email.to_string());
    doc.date_created = Some(time::rfc2822(now));
    doc.outlines = export_outlines(folders, feeds);
    doc
}

/// The test for a feed that is in no folder.
pub open spec fn has_no_folder() -> spec_fn(FeedForExport) -> bool {
    |f: FeedForExport| f.folder_id is None
}

/// The test for a folder with feeds in it.
pub open spec fn has_feeds(feeds: Seq<FeedForExport>) -> spec_fn(FolderForExport) -> bool {
    |f: FolderForExport| feeds.filter(is_in(f.id)).len() > 0
}

/// Whether some entries show feeds by folder on a single level: first the feeds in no
/// folder, then each folder with feeds in it, both in their order.
pub open spec fn shows_by_folder(
    outlines: Seq<OpmlOutline>,
    folders: Seq<FolderForExport>,
    feeds: Seq<FeedForExport>,
) -> bool {
    let loose = feeds.filter(has_no_folder());
    let shown = folders.filter(has_feeds(feeds));
    &&& outlines.len() == loose.len() + shown.len()
    &&& forall|i: int| 0 <= i < loose.len() ==> shows_feed(#[trigger] outlines[i], loose[i])
    &&& forall|j: int|
        0 <= j < shown.len() ==> shows_folder(
            outlines[loose.len() + j],
            folders,
            feeds,
            #[trigger] shown[j],
            0,
        )
}

/// The document with the feeds of one user by folder, on a single level, as of now.
pub fn export_by_folder(
    email: &str,
    now: Timestamp,
    folders: &Vec<FolderForExport>,
    feeds: &Vec<FeedForExport>,
) -> (res: OpmlDocument)
    requires
        distinct_ids(folders@),
        now.has_four_digit_year(),
    ensures
        text::view_opt(res.title) == Some("FeedMind export for "@ + email@),
        text::view_opt(res.owner_email) == Some(email@),
        text::view_opt(res.date_created) == Some(time::rfc2822_text(now)),
        shows_by_folder(res.outlines@, folders@, feeds@),
{
    let mut outlines: Vec<OpmlOutline> = Vec::new();
    let ghost loose = feeds@.filter(has_no_folder());
    let mut i: usize = 0;
    proof {
        lists::lemma_filter_all(feeds@, has_no_folder());
    }
    while i < feeds.len()
        invariant
            i <= feeds@.len(),
            outlines@.len() == feeds@.take(i as int).filter(has_no_folder()).len(),
            forall|k: int|
                0 <= k < outlines@.len() ==> shows_feed(
                    #[trigger] outlines@[k],
                    feeds@.take(i as int).filter(has_no_folder())[k],
                ),
        decreases feeds@.len() - i,
    {
        proof {
            lists::lemma_filter_step(feeds@, i as int, has_no_folder());
        }
        if feeds[i].folder_id.is_none() {
            outlines.push(feed_entry(&feeds[i]));
        }
        i += 1;
    }
    let ghost count = loose.len();
    let ghost first = outlines@;
    let ghost test = has_feeds(feeds@);
    let mut j: usize = 0;
    proof {
        lists::lemma_filter_all(folders@, test);
    }
    while j < folders.len()
        invariant
            j <= folders@.len(),
            count == first.len(),
            test == has_feeds(feeds@),
            outlines@.len() == count + folders@.take(j as int).filter(test).len(),
            forall|k: int| 0 <= k < count ==> #[trigger] outlines@[k] == first[k],
            forall|k: int|
                0 <= k < folders@.take(j as int).filter(test).len() ==> shows_folder(
                    outlines@[count + k],
                    folders@,
                    feeds@,
                    #[trigger] folders@.take(j as int).filter(test)[k],
                    0,
                ),
        decreases folders@.len() - j,
    {
        proof {
            lists::lemma_filter_step(folders@, j as int, test);
        }
        let entry: OpmlOutline = build_folder_outline(folders, feeds, j, 0);
        if entry.children.len() > 0 {
            let ghost before = outlines@;
            outlines.push(entry);
            proof {
                let old_kept = folders@.take(j as int).filter(test);
                let kept = folders@.take(j + 1).filter(test);
                assert forall|k: int| 0 <= k < kept.len() implies shows_folder(
                    outlines@[count + k],
                    folders@,
                    feeds@,
                    #[trigger] kept[k],
                    0,
                ) by {
                    if k < old_kept.len() {
                        assert(kept[k] == old_kept[k]);
                        assert(outlines@[count + k] == before[count + k]);
                    }
                }
            }
        }
        j += 1;
    }
    let mut title: String = "FeedMind export for ".to_string();
    title.append(email);
    let mut doc: OpmlDocument = OpmlDocument::new(Some(title));
    doc.date_created = Some(time::rfc2822(now));
    doc.owner_email = Some(email.to_string());
    doc.outlines = outlines;
    doc
}

/// Whether `path` leads from a folder without a parent down to its last folder.
pub open spec fn is_path(folders: Seq<FolderForExport>, path: Seq<FolderForExport>) -> bool {
    &&& path.len() > 0
    &&& path[0].parent_id is None
    &&& forall|i: int| 0 <= i < path.len() ==> folders.contains(#[trigger] path[i])
    &&& forall|i: int|
        0 < i < path.len() ==> (#[trigger] path[i]).parent_id == Some(path[i - 1].id)
}

pub proof fn lemma_same_folder(folders: Seq<FolderForExport>, a: FolderForExport, b: FolderForExport)
    requires
        distinct_ids(folders),
        folders.contains(a),
        folders.contains(b),
        a.id == b.id,
    ensures
        a == b,
{
    let i = choose|i: int| 0 <= i < folders.len() && folders[i] == a;
    let j = choose|j: int| 0 <= j < folders.len() && folders[j] == b;
    assert(folders[i].id == folders[j].id);
}

proof fn lemma_path_does_not_return(
    folders: Seq<FolderForExport>,
    path: Seq<FolderForExport>,
    i: int,
    j: int,
)
    requires
        distinct_ids(folders),
        is_path(folders, path),
        0 <= i < j < path.len(),
    ensures
        path[i] != path[j],
    decreases i,
{
    if path[i] == path[j] {
        assert(path[j].parent_id == Some(path[j - 1].id));
        if i > 0 {
            assert(path[i].parent_id == Some(path[i - 1].id));
            lemma_same_folder(folders, path[i - 1], path[j - 1]);
            lemma_path_does_not_return(folders, path, i - 1, j - 1);
        }
    }
}

/// Folders nest no deeper than there are folders: a way down from the top never comes back
/// to a folder that it has passed.
pub proof fn nesting_is_bounded(folders: Seq<FolderForExport>, path: Seq<FolderForExport>)
    requires
        distinct_ids(folders),
        is_path(folders, path),
    ensures
        path.len() <= folders.len(),
{
    assert forall|i: int, j: int| 0 <= i < j < path.len() implies path[i] != path[j] by {
        lemma_path_does_not_return(folders, path, i, j);
    }
    assert(path.no_duplicates());
    lists::lemma_distinct_among(path, folders);
}

/// A way down goes on to each folder in the last one.
pub proof fn lemma_ways_below(folders: Seq<FolderForExport>, path: Seq<FolderForExport>)
    requires
        is_path(folders, path),
    ensures
        forall|j: int|
            0 <= j < folders.filter(is_below(path.last().id)).len() ==> is_path(
                folders,
                path.push(#[trigger] folders.filter(is_below(path.last().id))[j]),
            ),
{
    let folder = path.last();
    let below = folders.filter(is_below(folder.id));
    assert forall|j: int| 0 <= j < below.len() implies is_path(
        folders,
        path.push(#[trigger] below[j]),
    ) by {
        lists::lemma_filter_member(folders, is_below(folder.id), j);
        let longer = path.push(below[j]);
        assert forall|i: int| 0 <= i < longer.len() implies folders.contains(
            #[trigger] longer[i],
        ) by {
            if i < path.len() {
                assert(longer[i] == path[i]);
            }
        }
        assert forall|i: int| 0 < i < longer.len() implies (#[trigger] longer[i]).parent_id == Some(
            longer[i - 1].id,
        ) by {
            if i < path.len() {
                assert(longer[i] == path[i]);
            }
        }
    }
}

proof fn lemma_deeper_is_the_same(
    o: OpmlOutline,
    folders: Seq<FolderForExport>,
    feeds: Seq<FeedForExport>,
    path: Seq<FolderForExport>,
    depth: nat,
    deeper: nat,
)
    requires
        distinct_ids(folders),
        is_path(folders, path),
        path.len() + depth >= folders.len(),
        depth <= deeper,
        shows_folder(o, folders, feeds, path.last(), depth),
    ensures
        shows_folder(o, folders, feeds, path.last(), deeper),
    decreases depth,
{
    let folder = path.last();
    let inside = feeds.filter(is_in(folder.id));
    let below = folders.filter(is_below(folder.id));
    lemma_ways_below(folders, path);
    if depth == 0 {
        if below.len() > 0 {
            assert(below[0] == below[0]);
            nesting_is_bounded(folders, path.push(below[0]));
        }
    } else {
        assert forall|j: int| 0 <= j < below.len() implies shows_folder(
            o.children@[inside.len() + j],
            folders,
            feeds,
            #[trigger] below[j],
            (deeper - 1) as nat,
        ) by {
            let longer = path.push(below[j]);
            assert(longer.last() == below[j]);
            lemma_deeper_is_the_same(
                o.children@[inside.len() + j],
                folders,
                feeds,
                longer,
                (depth - 1) as nat,
                (deeper - 1) as nat,
            );
        }
    }
}

/// The export cuts off no folder: a top folder shown down to as many levels as there are
/// folders is shown down to any level.
pub proof fn export_shows_every_level(
    o: OpmlOutline,
    folders: Seq<FolderForExport>,
    feeds: Seq<FeedForExport>,
    folder: FolderForExport,
    deeper: nat,
)
    requires
        distinct_ids(folders),
        folders.contains(folder),
        folder.parent_id is None,
        shows_folder(o, folders, feeds, folder, folders.len()),
        folders.len() <= deeper,
    ensures
        shows_folder(o, folders, feeds, folder, deeper),
{
    let path = seq![folder];
    assert(is_path(folders, path));
    lemma_deeper_is_the_same(o, folders, feeds, path, folders.len(), deeper);
}

/// Whether the entry of a feed is `o` itself or somewhere in it.
pub open spec fn holds_feed(o: OpmlOutline, feed: FeedForExport) -> bool
    decreases o,
{
    shows_feed(o, feed) || exists|i: int|
        0 <= i < o.children@.len() && holds_feed(#[trigger] o.children@[i], feed)
}

proof fn lemma_child_holds_feed(o: OpmlOutline, i: int, feed: FeedForExport)
    requires
        0 <= i < o.children@.len(),
        holds_feed(o.children@[i], feed),
    ensures
        holds_feed(o, feed),
{
    let child = o.children@[i];
    assert(holds_feed(child, feed));
}

proof fn lemma_path_holds_feed(
    o: OpmlOutline,
    folders: Seq<FolderForExport>,
    feeds: Seq<FeedForExport>,
    path: Seq<FolderForExport>,
    at: int,
    depth: nat,
    feed: FeedForExport,
)
    requires
        is_path(folders, path),
        0 <= at < path.len(),
        path.len() <= at + 1 + depth,
        shows_folder(o, folders, feeds, path[at], depth),
        feeds.contains(feed),
        feed.folder_id == Some(path.last().id),
    ensures
        holds_feed(o, feed),
    decreases path.len() - at,
{
    let inside = feeds.filter(is_in(path[at].id));
    if at == path.len() - 1 {
        let k = choose|k: int| 0 <= k < feeds.len() && feeds[k] == feed;
        feeds.lemma_filter_contains(is_in(path[at].id), k);
        let i = choose|i: int| 0 <= i < inside.len() && inside[i] == feed;
        assert(shows_feed(o.children@[i], inside[i]));
        lemma_child_holds_feed(o, i, feed);
    } else {
        let next = path[at + 1];
        let below = folders.filter(is_below(path[at].id));
        assert(folders.contains(path[at + 1]));
        let k = choose|k: int| 0 <= k < folders.len() && folders[k] == next;
        folders.lemma_filter_contains(is_below(path[at].id), k);
        let j = choose|j: int| 0 <= j < below.len() && below[j] == next;
        assert(below[j] == next);
        lemma_path_holds_feed(
            o.children@[inside.len() + j],
            folders,
            feeds,
            path,
            at + 1,
            (depth - 1) as nat,
            feed,
        );
        lemma_child_holds_feed(o, inside.len() + j, feed);
    }
}

/// The export holds every feed: one without a folder stands at the top, and one in a folder
/// stands in it, wherever that folder is nested below the top.
pub proof fn export_holds_every_feed(
    outlines: Seq<OpmlOutline>,
    folders: Seq<FolderForExport>,
    feeds: Seq<FeedForExport>,
    path: Seq<FolderForExport>,
    feed: FeedForExport,
)
    requires
        distinct_ids(folders),
        shows_all(outlines, folders, feeds),
        feeds.contains(feed),
        is_loose(folders)(feed) || (is_path(folders, path) && feed.folder_id == Some(
            path.last().id,
        )),
    ensures
        exists|i: int| 0 <= i < outlines.len() && #[trigger] holds_feed(outlines[i], feed),
{
    let loose = feeds.filter(is_loose(folders));
    let k = choose|k: int| 0 <= k < feeds.len() && feeds[k] == feed;
    if is_loose(folders)(feed) {
        feeds.lemma_filter_contains(is_loose(folders), k);
        let i = choose|i: int| 0 <= i < loose.len() && loose[i] == feed;
        assert(shows_feed(outlines[i], loose[i]));
        assert(holds_feed(outlines[i], feed));
    } else {
        let top = path[0];
        let test = is_shown(folders, feeds);
        let shown = folders.filter(test);
        nesting_is_bounded(folders, path);
        if path.len() == 1 {
            feeds.lemma_filter_contains(is_in(top.id), k);
        } else {
            assert(folders.contains(path[1]));
            let n = choose|n: int| 0 <= n < folders.len() && folders[n] == path[1];
            folders.lemma_filter_contains(is_below(top.id), n);
        }
        assert(folders.contains(path[0]));
        let m = choose|m: int| 0 <= m < folders.len() && folders[m] == top;
        folders.lemma_filter_contains(test, m);
        let j = choose|j: int| 0 <= j < shown.len() && shown[j] == top;
        assert(shown[j] == top);
        lemma_path_holds_feed(
            outlines[loose.len() + j],
            folders,
            feeds,
            path,
            0,
            folders.len(),
            feed,
        );
        assert(holds_feed(outlines[loose.len() + j], feed));
    }
}

/// The entry of an exported feed says what is stored of it: its title twice, that it is a feed,
/// and its addresses. That of a folder says its name twice and has no address.
pub proof fn entries_say_what_is_stored(
    title: String,
    url: String,
    site_url: Option<String>,
    entry: OpmlOutline,
    name: String,
    holder: OpmlOutline,
)
    requires
        call_ensures(OpmlOutline::feed, (title, url, site_url), entry),
        call_ensures(OpmlOutline::folder, (name,), holder),
    ensures
        entry.text@ == title@,
        entry.title is Some && entry.title->0@ == title@,
        entry.outline_type is Some && entry.outline_type->0@ == "rss"@,
        entry.xml_url is Some && entry.xml_url->0@ == url@,
        text::view_opt(entry.html_url) == text::view_opt(site_url),
        entry.description is None && entry.children@.len() == 0,
        holder.text@ == name@,
        holder.title is Some && holder.title->0@ == name@,
        holder.xml_url is None && holder.html_url is None && holder.outline_type is None,
        holder.children@.len() == 0,
        forall|feed: FeedForExport| #[trigger]
            shows_feed(entry, feed) ==> feed.title@ == title@ && feed.url@ == url@
                && text::view_opt(feed.site_url) == text::view_opt(site_url),
{
}

/// What stands at the top of an export is a stored feed that no stored folder holds, or a stored
/// folder without a parent that holds something, and the feeds come first.
pub proof fn top_holds_what_belongs_there(
    outlines: Seq<OpmlOutline>,
    folders: Seq<FolderForExport>,
    feeds: Seq<FeedForExport>,
    i: int,
)
    requires
        shows_all(outlines, folders, feeds),
        0 <= i < outlines.len(),
    ensures
        outlines[i].xml_url is Some <==> i < feeds.filter(is_loose(folders)).len(),
        outlines[i].xml_url is Some ==> exists|f: FeedForExport|
            {
                &&& #[trigger] feeds.contains(f)
                &&& f.folder_id matches Some(id) ==> forall|j: int|
                    0 <= j < folders.len() ==> (#[trigger] folders[j]).id != id
                &&& outlines[i].text@ == f.title@
                &&& outlines[i].xml_url->0@ == f.url@
                &&& text::view_opt(outlines[i].html_url) == text::view_opt(f.site_url)
            },
        outlines[i].xml_url is None ==> outlines[i].children@.len() > 0 && exists|f:
            FolderForExport| #[trigger]
            folders.contains(f) && f.parent_id is None && outlines[i].text@ == f.name@,
{
    let loose = feeds.filter(is_loose(folders));
    let test = is_shown(folders, feeds);
    let shown = folders.filter(test);
    if i < loose.len() {
        lists::lemma_filter_member(feeds, is_loose(folders), i);
        assert(shows_feed(outlines[i], loose[i]));
        assert(feeds.contains(loose[i]));
    } else {
        let j = i - loose.len();
        lists::lemma_filter_member(folders, test, j);
        assert(shows_folder(outlines[loose.len() + j], folders, feeds, shown[j], folders.len()));
        assert(outlines[loose.len() + j] == outlines[i]);
        assert(folders.contains(shown[j]));
        assert(folders.len() > 0);
    }
}

/// What stands in the entry of a folder is a feed stored in that folder, or a folder stored in
/// it, and the feeds come first.
pub proof fn folder_holds_what_belongs_there(
    o: OpmlOutline,
    folders: Seq<FolderForExport>,
    feeds: Seq<FeedForExport>,
    folder: FolderForExport,
    depth: nat,
    i: int,
)
    requires
        shows_folder(o, folders, feeds, folder, depth),
        0 <= i < o.children@.len(),
    ensures
        o.text@ == folder.name@,
        o.children@[i].xml_url is Some <==> i < feeds.filter(is_in(folder.id)).len(),
        o.children@[i].xml_url is Some ==> exists|f: FeedForExport| #[trigger]
            feeds.contains(f) && f.folder_id == Some(folder.id) && o.children@[i].text@
                == f.title@ && o.children@[i].xml_url->0@ == f.url@,
        o.children@[i].xml_url is None ==> exists|f: FolderForExport| #[trigger]
            folders.contains(f) && f.parent_id == Some(folder.id) && o.children@[i].text@
                == f.name@,
{
    let inside = feeds.filter(is_in(folder.id));
    let below = folders.filter(is_below(folder.id));
    if i < inside.len() {
        lists::lemma_filter_member(feeds, is_in(folder.id), i);
        assert(shows_feed(o.children@[i], inside[i]));
        assert(feeds.contains(inside[i]));
    } else {
        let j = i - inside.len();
        lists::lemma_filter_member(folders, is_below(folder.id), j);
        assert(shows_folder(
            o.children@[inside.len() + j],
            folders,
            feeds,
            below[j],
            (depth - 1) as nat,
        ));
        assert(o.children@[inside.len() + j] == o.children@[i]);
        assert(folders.contains(below[j]));
    }
}

/// An export is titled, names its owner, and tells when it was made.
pub proof fn export_names_its_owner(
    email: &str,
    now: Timestamp,
    folders: Vec<FolderForExport>,
    feeds: Vec<FeedForExport>,
    nested: OpmlDocument,
    flat: OpmlDocument,
)
    requires
        distinct_ids(folders@),
        now.has_four_digit_year(),
        call_ensures(export_document, (email, now, &folders, &feeds), nested),
        call_ensures(export_by_folder, (email, now, &folders, &feeds), flat),
    ensures
        nested.title is Some && nested.title->0@ == "FeedMind Export"@,
        flat.title is Some && flat.title->0@ == "FeedMind export for "@ + email@,
        nested.owner_email is Some && nested.owner_email->0@ == email@,
        flat.owner_email is Some && flat.owner_email->0@ == email@,
        nested.date_created is Some && nested.date_created->0@ == time::rfc2822_text(now),
        flat.date_created is Some && flat.date_created->0@ == time::rfc2822_text(now),
        shows_all(nested.outlines@, folders@, feeds@),
        shows_by_folder(flat.outlines@, folders@, feeds@),
{
}

/// The export on a single level holds every feed without a folder at the top, and every feed of a
/// stored folder in the entry with the name of that folder.
pub proof fn single_level_holds_every_feed(
    outlines: Seq<OpmlOutline>,
    folders: Seq<FolderForExport>,
    feeds: Seq<FeedForExport>,
    folder: FolderForExport,
    feed: FeedForExport,
)
    requires
        shows_by_folder(outlines, folders, feeds),
        feeds.contains(feed),
        feed.folder_id is None || (folders.contains(folder) && feed.folder_id == Some(folder.id)),
    ensures
        feed.folder_id is None ==> exists|i: int|
            0 <= i < outlines.len() && #[trigger] shows_feed(outlines[i], feed),
        feed.folder_id is Some ==> exists|i: int, k: int|
            0 <= i < outlines.len() && 0 <= k < outlines[i].children@.len() && outlines[i].text@
                == folder.name@ && #[trigger] shows_feed(outlines[i].children@[k], feed),
{
    let k = choose|k: int| 0 <= k < feeds.len() && feeds[k] == feed;
    let loose = feeds.filter(has_no_folder());
    if feed.folder_id is None {
        feeds.lemma_filter_contains(has_no_folder(), k);
        let i = choose|i: int| 0 <= i < loose.len() && loose[i] == feed;
        assert(shows_feed(outlines[i], loose[i]));
    } else {
        let inside = feeds.filter(is_in(folder.id));
        feeds.lemma_filter_contains(is_in(folder.id), k);
        let m = choose|m: int| 0 <= m < folders.len() && folders[m] == folder;
        folders.lemma_filter_contains(has_feeds(feeds), m);
        let shown = folders.filter(has_feeds(feeds));
        let j = choose|j: int| 0 <= j < shown.len() && shown[j] == folder;
        let i = loose.len() as int + j;
        assert(shows_folder(outlines[loose.len() + j], folders, feeds, shown[j], 0));
        let c = choose|c: int| 0 <= c < inside.len() && inside[c] == feed;
        assert(shows_feed(outlines[i].children@[c], inside[c]));
    }
}

/// The entries of an export hold every feed that no stored folder holds at the top, and every
/// other one that a way down from a top folder leads to.
pub proof fn exported_entries_hold_every_feed(
    folders: Vec<FolderForExport>,
    feeds: Vec<FeedForExport>,
    res: Vec<OpmlOutline>,
    path: Seq<FolderForExport>,
    feed: FeedForExport,
)
    requires
        distinct_ids(folders@),
        call_ensures(export_outlines, (&folders, &feeds), res),
        feeds@.contains(feed),
        feed.folder_id is None || (is_path(folders@, path) && feed.folder_id == Some(
            path.last().id,
        )),
    ensures
        exists|i: int| 0 <= i < res@.len() && #[trigger] holds_feed(res@[i], feed),
{
    export_holds_every_feed(res@, folders@, feeds@, path, feed);
}

} // verus!
