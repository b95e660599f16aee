//! Why an export holds no feed more often than it is stored.

use vstd::prelude::*;

use crate::ids::Uuid;
use crate::lists;
use crate::opml::document::OpmlOutline;
use crate::opml::tree;
use crate::opml::tree::{FeedForExport, FolderForExport};
use crate::text;

verus! {

/// What an entry says of a feed: its title, its address and that of its site.
#[verifier::ext_equal]
pub struct FeedKey {
    pub title: Seq<char>,
    pub url: Seq<char>,
    pub site_url: Option<Seq<char>>,
}

/// Whether a stored feed is one of which this is said.
pub open spec fn has_key(feed: FeedForExport, key: FeedKey) -> bool {
    feed.title@ == key.title && feed.url@ == key.url && text::view_opt(feed.site_url)
        == key.site_url
}

/// Whether an entry is that of a feed and says this.
pub open spec fn says(o: OpmlOutline, key: FeedKey) -> bool {
    &&& text::view_opt(o.xml_url) == Some(key.url)
    &&& o.text@ == key.title
    &&& text::view_opt(o.html_url) == key.site_url
}

/// How many entries say this of a feed: an entry itself and everything in it.
pub open spec fn entries_saying(o: OpmlOutline, key: FeedKey) -> nat
    decreases o, 0nat,
{
    lists::one_if(says(o, key)) + entries_saying_in(o.children@, o.children@.len(), key)
}

/// How many entries say this of a feed: the first `n` of some entries and everything in them.
pub open spec fn entries_saying_in(os: Seq<OpmlOutline>, n: nat, key: FeedKey) -> nat
    decreases os, n,
{
    if n == 0 || n > os.len() {
        0
    } else {
        entries_saying_in(os, (n - 1) as nat, key) + entries_saying(os[n - 1], key)
    }
}

/// The test that every feed passes.
pub open spec fn any_feed() -> spec_fn(FeedForExport) -> bool {
    |f: FeedForExport| true
}

/// How many of some feeds pass a test and are such that this is said of them.
pub open spec fn feeds_with(
    feeds: Seq<FeedForExport>,
    test: spec_fn(FeedForExport) -> bool,
    key: FeedKey,
) -> nat
    decreases feeds.len(),
{
    if feeds.len() == 0 {
        0
    } else {
        feeds_with(feeds.drop_last(), test, key) + lists::one_if(
            test(feeds.last()) && has_key(feeds.last(), key),
        )
    }
}

/// How many feeds of which this is said are in a folder, down to `depth` levels.
spec fn listed(
    folders: Seq<FolderForExport>,
    feeds: Seq<FeedForExport>,
    folder: FolderForExport,
    depth: nat,
    key: FeedKey,
) -> nat
    decreases depth, 0nat,
{
    let below = folders.filter(tree::is_below(folder.id));
    feeds_with(feeds, tree::is_in(folder.id), key) + if depth == 0 {
        0
    } else {
        listed_in(folders, feeds, below, below.len(), (depth - 1) as nat, key)
    }
}

/// How many feeds of which this is said are in the first `n` of some folders, down to `depth`
/// levels.
spec fn listed_in(
    folders: Seq<FolderForExport>,
    feeds: Seq<FeedForExport>,
    list: Seq<FolderForExport>,
    n: nat,
    depth: nat,
    key: FeedKey,
) -> nat
    decreases depth, n,
{
    if n == 0 {
        0
    } else {
        listed_in(folders, feeds, list, (n - 1) as nat, depth, key) + listed(
            folders,
            feeds,
            list[n - 1],
            depth,
            key,
        )
    }
}

/// How often a walk through a folder, down to `depth` levels, comes to the folder with an id.
spec fn visits(
    folders: Seq<FolderForExport>,
    folder: FolderForExport,
    depth: nat,
    id: Option<Uuid>,
) -> nat
    decreases depth, 0nat,
{
    let below = folders.filter(tree::is_below(folder.id));
    lists::one_if(id == Some(folder.id)) + if depth == 0 {
        0
    } else {
        visits_in(folders, below, below.len(), (depth - 1) as nat, id)
    }
}

/// How often a walk through the first `n` of some folders, down to `depth` levels, comes to the
/// folder with an id.
spec fn visits_in(
    folders: Seq<FolderForExport>,
    list: Seq<FolderForExport>,
    n: nat,
    depth: nat,
    id: Option<Uuid>,
) -> nat
    decreases depth, n,
{
    if n == 0 {
        0
    } else {
        visits_in(folders, list, (n - 1) as nat, depth, id) + visits(
            folders,
            list[n - 1],
            depth,
            id,
        )
    }
}

/// Whether a way down from the top goes on from another, or from one step behind it, to the
/// folder with an id.
spec fn leads_on(
    folders: Seq<FolderForExport>,
    path: Seq<FolderForExport>,
    longer: Seq<FolderForExport>,
    id: Option<Uuid>,
) -> bool {
    &&& tree::is_path(folders, longer)
    &&& path.len() <= longer.len()
    &&& longer.take(path.len() as int) == path
    &&& id == Some(longer.last().id)
}

proof fn lemma_no_folder_twice(folders: Seq<FolderForExport>)
    requires
        tree::distinct_ids(folders),
    ensures
        folders.no_duplicates(),
{
    assert forall|i: int, j: int| 0 <= i < j < folders.len() implies folders[i] != folders[j] by {
        assert(folders[i].id != folders[j].id);
    }
}

/// There is one way down to a folder.
proof fn lemma_one_way_down(
    folders: Seq<FolderForExport>,
    a: Seq<FolderForExport>,
    b: Seq<FolderForExport>,
)
    requires
        tree::distinct_ids(folders),
        tree::is_path(folders, a),
        tree::is_path(folders, b),
        a.last().id == b.last().id,
    ensures
        a == b,
    decreases a.len(),
{
    assert(folders.contains(a[a.len() - 1]));
    assert(folders.contains(b[b.len() - 1]));
    tree::lemma_same_folder(folders, a.last(), b.last());
    if a.len() > 1 && b.len() > 1 {
        assert(a[a.len() - 1].parent_id == Some(a[a.len() - 2].id));
        assert(b[b.len() - 1].parent_id == Some(b[b.len() - 2].id));
        lemma_shorter_way(folders, a);
        lemma_shorter_way(folders, b);
        lemma_one_way_down(folders, a.drop_last(), b.drop_last());
        assert(a =~= a.drop_last().push(a.last()));
        assert(b =~= b.drop_last().push(b.last()));
    } else if a.len() > 1 {
        assert(a[a.len() - 1].parent_id == Some(a[a.len() - 2].id));
    } else if b.len() > 1 {
        assert(b[b.len() - 1].parent_id == Some(b[b.len() - 2].id));
    } else {
        assert(a =~= b);
    }
}

proof fn lemma_shorter_way(folders: Seq<FolderForExport>, path: Seq<FolderForExport>)
    requires
        tree::is_path(folders, path),
        path.len() > 1,
    ensures
        tree::is_path(folders, path.drop_last()),
{
    let shorter = path.drop_last();
    assert forall|i: int| 0 <= i < shorter.len() implies folders.contains(
        #[trigger] shorter[i],
    ) by {
        assert(shorter[i] == path[i]);
    }
    assert forall|i: int| 0 < i < shorter.len() implies (#[trigger] shorter[i]).parent_id == Some(
        shorter[i - 1].id,
    ) by {
        assert(shorter[i] == path[i]);
    }
}

/// A walk comes to a folder at most once, and only on a way down.
proof fn lemma_visits(
    folders: Seq<FolderForExport>,
    path: Seq<FolderForExport>,
    depth: nat,
    id: Option<Uuid>,
)
    requires
        tree::distinct_ids(folders),
        tree::is_path(folders, path),
    ensures
        visits(folders, path.last(), depth, id) <= 1,
        visits(folders, path.last(), depth, id) > 0 ==> exists|longer: Seq<FolderForExport>|
            leads_on(folders, path, longer, id),
    decreases depth, 0nat,
{
    let folder = path.last();
    let below = folders.filter(tree::is_below(folder.id));
    if id == Some(folder.id) {
        assert(path.take(path.len() as int) =~= path);
        assert(leads_on(folders, path, path, id));
    }
    if depth > 0 {
        tree::lemma_ways_below(folders, path);
        lemma_no_folder_twice(folders);
        lists::lemma_filter_distinct(folders, tree::is_below(folder.id));
        lemma_visits_in(folders, path, below, below.len(), (depth - 1) as nat, id);
        if visits_in(folders, below, below.len(), (depth - 1) as nat, id) > 0 {
            let (j, longer) = choose|j: int, longer: Seq<FolderForExport>|
                0 <= j < below.len() && #[trigger] leads_on(
                    folders,
                    path.push(below[j]),
                    longer,
                    id,
                );
            assert(longer.take(path.len() as int) =~= longer.take(
                path.len() as int + 1,
            ).take(path.len() as int));
            assert(path.push(below[j]).take(path.len() as int) =~= path);
            assert(leads_on(folders, path, longer, id));
            if id == Some(folder.id) {
                lemma_one_way_down(folders, path, longer);
                assert(longer.len() > path.len());
            }
        }
    }
}

proof fn lemma_visits_in(
    folders: Seq<FolderForExport>,
    path: Seq<FolderForExport>,
    list: Seq<FolderForExport>,
    n: nat,
    depth: nat,
    id: Option<Uuid>,
)
    requires
        tree::distinct_ids(folders),
        forall|j: int|
            0 <= j < list.len() ==> tree::is_path(folders, path.push(#[trigger] list[j])),
        list.no_duplicates(),
        n <= list.len(),
    ensures
        visits_in(folders, list, n, depth, id) <= 1,
        visits_in(folders, list, n, depth, id) > 0 ==> exists|
            j: int,
            longer: Seq<FolderForExport>,
        |
            0 <= j < n && #[trigger] leads_on(folders, path.push(list[j]), longer, id),
    decreases depth, n,
{
    if n > 0 {
        let m = n - 1;
        let way = path.push(list[m]);
        lemma_visits_in(folders, path, list, m as nat, depth, id);
        assert(way.last() == list[m]);
        lemma_visits(folders, way, depth, id);
        if visits(folders, list[m], depth, id) > 0 {
            let last = choose|longer: Seq<FolderForExport>| leads_on(folders, way, longer, id);
            assert(leads_on(folders, path.push(list[m]), last, id));
            if visits_in(folders, list, m as nat, depth, id) > 0 {
                let (j, longer) = choose|j: int, longer: Seq<FolderForExport>|
                    0 <= j < m && #[trigger] leads_on(folders, path.push(list[j]), longer, id);
                lemma_one_way_down(folders, last, longer);
                let at = path.len() as int;
                assert(last.take(at + 1)[at] == list[m]);
                assert(longer.take(at + 1)[at] == list[j]);
            }
        }
    }
}

proof fn lemma_one_more_feed(
    folders: Seq<FolderForExport>,
    feeds: Seq<FeedForExport>,
    feed: FeedForExport,
    folder: FolderForExport,
    depth: nat,
    key: FeedKey,
)
    ensures
        listed(folders, feeds.push(feed), folder, depth, key) == listed(
            folders,
            feeds,
            folder,
            depth,
            key,
        ) + if has_key(feed, key) {
            visits(folders, folder, depth, feed.folder_id)
        } else {
            0
        },
    decreases depth, 0nat,
{
    let below = folders.filter(tree::is_below(folder.id));
    assert(feeds.push(feed).drop_last() =~= feeds);
    if depth > 0 {
        lemma_one_more_feed_in(
            folders,
            feeds,
            feed,
            below,
            below.len(),
            (depth - 1) as nat,
            key,
        );
    }
}

proof fn lemma_one_more_feed_in(
    folders: Seq<FolderForExport>,
    feeds: Seq<FeedForExport>,
    feed: FeedForExport,
    list: Seq<FolderForExport>,
    n: nat,
    depth: nat,
    key: FeedKey,
)
    ensures
        listed_in(folders, feeds.push(feed), list, n, depth, key) == listed_in(
            folders,
            feeds,
            list,
            n,
            depth,
            key,
        ) + if has_key(feed, key) {
            visits_in(folders, list, n, depth, feed.folder_id)
        } else {
            0
        },
    decreases depth, n,
{
    if n > 0 {
        lemma_one_more_feed_in(folders, feeds, feed, list, (n - 1) as nat, depth, key);
        lemma_one_more_feed(folders, feeds, feed, list[n - 1], depth, key);
    }
}

/// No feed is counted twice.
proof fn lemma_listed_once(
    folders: Seq<FolderForExport>,
    feeds: Seq<FeedForExport>,
    tops: Seq<FolderForExport>,
    depth: nat,
    key: FeedKey,
)
    requires
        tree::distinct_ids(folders),
        tops.no_duplicates(),
        forall|j: int|
            0 <= j < tops.len() ==> tree::is_path(
                folders,
                Seq::<FolderForExport>::empty().push(#[trigger] tops[j]),
            ),
    ensures
        feeds_with(feeds, tree::is_loose(folders), key) + listed_in(
            folders,
            feeds,
            tops,
            tops.len(),
            depth,
            key,
        ) <= feeds_with(feeds, any_feed(), key),
    decreases feeds.len(),
{
    let nothing = Seq::<FolderForExport>::empty();
    if feeds.len() == 0 {
        lemma_nothing_listed_in(folders, feeds, tops, tops.len(), depth, key);
    } else {
        let fewer = feeds.drop_last();
        let feed = feeds.last();
        lemma_listed_once(folders, fewer, tops, depth, key);
        assert(fewer.push(feed) =~= feeds);
        lemma_one_more_feed_in(folders, fewer, feed, tops, tops.len(), depth, key);
        lemma_visits_in(folders, nothing, tops, tops.len(), depth, feed.folder_id);
        if visits_in(folders, tops, tops.len(), depth, feed.folder_id) > 0 {
            let (j, longer) = choose|j: int, longer: Seq<FolderForExport>|
                0 <= j < tops.len() && #[trigger] leads_on(
                    folders,
                    nothing.push(tops[j]),
                    longer,
                    feed.folder_id,
                );
            assert(folders.contains(longer[longer.len() - 1]));
            let i = choose|i: int| 0 <= i < folders.len() && folders[i] == longer.last();
            assert(folders[i].id == longer.last().id);
            assert(tree::known(folders, longer.last().id));
        }
    }
}

proof fn lemma_nothing_listed(
    folders: Seq<FolderForExport>,
    feeds: Seq<FeedForExport>,
    folder: FolderForExport,
    depth: nat,
    key: FeedKey,
)
    requires
        feeds.len() == 0,
    ensures
        listed(folders, feeds, folder, depth, key) == 0,
    decreases depth, 0nat,
{
    if depth > 0 {
        let below = folders.filter(tree::is_below(folder.id));
        lemma_nothing_listed_in(folders, feeds, below, below.len(), (depth - 1) as nat, key);
    }
}

proof fn lemma_nothing_listed_in(
    folders: Seq<FolderForExport>,
    feeds: Seq<FeedForExport>,
    list: Seq<FolderForExport>,
    n: nat,
    depth: nat,
    key: FeedKey,
)
    requires
        feeds.len() == 0,
    ensures
        listed_in(folders, feeds, list, n, depth, key) == 0,
    decreases depth, n,
{
    if n > 0 {
        lemma_nothing_listed_in(folders, feeds, list, (n - 1) as nat, depth, key);
        lemma_nothing_listed(folders, feeds, list[n - 1], depth, key);
    }
}

proof fn lemma_filtered(
    feeds: Seq<FeedForExport>,
    test: spec_fn(FeedForExport) -> bool,
    key: FeedKey,
)
    ensures
        feeds_with(feeds.filter(test), any_feed(), key) == feeds_with(feeds, test, key),
    decreases feeds.len(),
{
    reveal(Seq::filter);
    if feeds.len() > 0 {
        let fewer = feeds.drop_last();
        lemma_filtered(fewer, test, key);
        if test(feeds.last()) {
            assert(feeds.filter(test).drop_last() =~= fewer.filter(test));
        }
    }
}

/// Entries that show some feeds say what is so of those.
proof fn lemma_feed_entries(
    os: Seq<OpmlOutline>,
    feeds: Seq<FeedForExport>,
    n: nat,
    key: FeedKey,
)
    requires
        n <= feeds.len() <= os.len(),
        forall|i: int| 0 <= i < feeds.len() ==> tree::shows_feed(#[trigger] os[i], feeds[i]),
    ensures
        entries_saying_in(os, n, key) == feeds_with(feeds.take(n as int), any_feed(), key),
    decreases n,
{
    if n > 0 {
        lemma_feed_entries(os, feeds, (n - 1) as nat, key);
        assert(feeds.take(n as int).drop_last() =~= feeds.take(n - 1));
        let o = os[n - 1];
        assert(tree::shows_feed(o, feeds[n - 1]));
        assert(entries_saying(o, key) == lists::one_if(says(o, key)) + entries_saying_in(
            o.children@,
            o.children@.len(),
            key,
        ));
        assert(says(o, key) == has_key(feeds[n - 1], key));
        assert(feeds.take(n as int).last() == feeds[n - 1]);
    }
}

/// Entries that show some feeds, and behind them some folders, say what is so of those.
proof fn lemma_folder_entries(
    os: Seq<OpmlOutline>,
    folders: Seq<FolderForExport>,
    feeds: Seq<FeedForExport>,
    first: Seq<FeedForExport>,
    list: Seq<FolderForExport>,
    n: nat,
    depth: nat,
    key: FeedKey,
)
    requires
        n <= list.len(),
        os.len() == first.len() + list.len(),
        forall|i: int| 0 <= i < first.len() ==> tree::shows_feed(#[trigger] os[i], first[i]),
        forall|j: int|
            0 <= j < list.len() ==> tree::shows_folder(
                os[first.len() + j],
                folders,
                feeds,
                #[trigger] list[j],
                depth,
            ),
    ensures
        entries_saying_in(os, first.len() + n, key) == feeds_with(first, any_feed(), key)
            + listed_in(folders, feeds, list, n, depth, key),
    decreases depth, n, 1nat,
{
    if n == 0 {
        lemma_feed_entries(os, first, first.len(), key);
        assert(first.take(first.len() as int) =~= first);
    } else {
        lemma_folder_entries(os, folders, feeds, first, list, (n - 1) as nat, depth, key);
        assert(tree::shows_folder(
            os[first.len() + (n - 1)],
            folders,
            feeds,
            list[n - 1],
            depth,
        ));
        lemma_folder_entry(os[first.len() + n - 1], folders, feeds, list[n - 1], depth, key);
    }
}

proof fn lemma_folder_entry(
    o: OpmlOutline,
    folders: Seq<FolderForExport>,
    feeds: Seq<FeedForExport>,
    folder: FolderForExport,
    depth: nat,
    key: FeedKey,
)
    requires
        tree::shows_folder(o, folders, feeds, folder, depth),
    ensures
        entries_saying(o, key) == listed(folders, feeds, folder, depth, key),
    decreases depth, 0nat, 0nat,
{
    let inside = feeds.filter(tree::is_in(folder.id));
    let below = folders.filter(tree::is_below(folder.id));
    lemma_filtered(feeds, tree::is_in(folder.id), key);
    if depth == 0 {
        lemma_feed_entries(o.children@, inside, inside.len(), key);
        assert(inside.take(inside.len() as int) =~= inside);
    } else {
        lemma_folder_entries(
            o.children@,
            folders,
            feeds,
            inside,
            below,
            below.len(),
            (depth - 1) as nat,
            key,
        );
    }
}

/// An export holds a feed no more often than it is stored: of the entries at any depth, no more
/// say something of a feed than there are stored feeds of which that is so. So no feed stands
/// in it twice, and none that is not stored.
pub proof fn export_holds_no_feed_twice(
    outlines: Seq<OpmlOutline>,
    folders: Seq<FolderForExport>,
    feeds: Seq<FeedForExport>,
    key: FeedKey,
)
    requires
        tree::distinct_ids(folders),
        tree::shows_all(outlines, folders, feeds),
    ensures
        entries_saying_in(outlines, outlines.len(), key) <= feeds_with(feeds, any_feed(), key),
{
    let test = tree::is_shown(folders, feeds);
    let loose = feeds.filter(tree::is_loose(folders));
    let shown = folders.filter(test);
    lemma_folder_entries(
        outlines,
        folders,
        feeds,
        loose,
        shown,
        shown.len(),
        folders.len(),
        key,
    );
    lemma_filtered(feeds, tree::is_loose(folders), key);
    lemma_no_folder_twice(folders);
    lists::lemma_filter_distinct(folders, test);
    assert forall|j: int| 0 <= j < shown.len() implies tree::is_path(
        folders,
        Seq::<FolderForExport>::empty().push(#[trigger] shown[j]),
    ) by {
        lists::lemma_filter_member(folders, test, j);
    }
    lemma_listed_once(folders, feeds, shown, folders.len(), key);
}

} // verus!
