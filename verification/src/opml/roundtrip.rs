//! What importing a document stores: what the document says, and what was exported.

use vstd::prelude::*;

use crate::opml::document;
use crate::opml::document::{FlatFeedView, OpmlOutline};
use crate::opml::import;
use crate::opml::import::{ImportStep, StepView};
use crate::opml::tree;
use crate::opml::tree::{FeedForExport, FolderForExport};
use crate::text;

verus! {

/// A feed of a document is stored under the name that the document gives it, its title or else
/// its text, with both its addresses and in the folder around it, and nothing else is stored for
/// it.
pub proof fn feed_is_stored_under_its_name(o: OpmlOutline, at: nat, parent: Option<usize>)
    requires
        o.xml_url is Some,
    ensures
        ({
            let steps = import::steps_of(o, at, parent);
            &&& steps.len() == 1
            &&& steps[0] is Feed
            &&& steps[0]->url == o.xml_url->0@
            &&& o.title matches Some(title) ==> steps[0]->title == title@
            &&& o.title is None ==> steps[0]->title == o.text@
            &&& steps[0]->html_url == text::view_opt(o.html_url)
            &&& steps[0]->Feed_parent == parent
        }),
{
}

/// A folder of a document is stored under its text before everything in it, and what is in it
/// goes into that folder. A folder with nothing in it is not stored.
pub proof fn folder_is_stored_before_what_it_holds(o: OpmlOutline, at: nat, parent: Option<usize>)
    requires
        o.xml_url is None,
    ensures
        ({
            let steps = import::steps_of(o, at, parent);
            &&& o.children@.len() == 0 ==> steps.len() == 0
            &&& o.children@.len() > 0 ==> {
                &&& steps.len() > 0
                &&& steps[0] is Folder
                &&& steps[0]->name == o.text@
                &&& steps[0]->Folder_parent == parent
                &&& steps.skip(1) == import::steps_in(
                    o.children@,
                    o.children@.len(),
                    at + 1,
                    Some(at as usize),
                )
            }
        }),
{
    let steps = import::steps_of(o, at, parent);
    if o.children@.len() > 0 {
        assert(steps.skip(1) =~= import::steps_in(
            o.children@,
            o.children@.len(),
            at + 1,
            Some(at as usize),
        ));
    }
}

/// What is stored for some entries is what is stored for each of them, one after the other.
pub proof fn entries_are_stored_in_order(
    os: Seq<OpmlOutline>,
    n: nat,
    at: nat,
    parent: Option<usize>,
    i: int,
)
    requires
        0 <= i < n <= os.len(),
    ensures
        ({
            let before = import::steps_in(os, i as nat, at, parent).len() as int;
            let own = import::steps_of(os[i], (at + before) as nat, parent);
            let all = import::steps_in(os, n, at, parent);
            &&& before + own.len() <= all.len()
            &&& all.subrange(before, before + own.len()) == own
        }),
    decreases n,
{
    let before = import::steps_in(os, i as nat, at, parent).len() as int;
    let own = import::steps_of(os[i], (at + before) as nat, parent);
    let all = import::steps_in(os, n, at, parent);
    let fewer = import::steps_in(os, (n - 1) as nat, at, parent);
    if i == n - 1 {
        assert(all.subrange(before, before + own.len()) =~= own);
    } else {
        entries_are_stored_in_order(os, (n - 1) as nat, at, parent, i);
        assert(all.subrange(before, before + own.len()) =~= fewer.subrange(
            before,
            before + own.len(),
        ));
    }
}

/// What is said of the feeds among some entries to be stored: title, address and site.
pub open spec fn feeds_stored(steps: Seq<StepView>) -> Seq<
    (Seq<char>, Seq<char>, Option<Seq<char>>),
>
    decreases steps.len(),
{
    if steps.len() == 0 {
        Seq::empty()
    } else {
        let before = feeds_stored(steps.drop_last());
        match steps.last() {
            StepView::Feed { url, title, html_url, .. } => before.push((title, url, html_url)),
            StepView::Folder { .. } => before,
        }
    }
}

/// What is said of some flattened feeds: title, address and site.
pub open spec fn feeds_flattened(feeds: Seq<FlatFeedView>) -> Seq<
    (Seq<char>, Seq<char>, Option<Seq<char>>),
> {
    feeds.map_values(|f: FlatFeedView| (f.title, f.xml_url, f.html_url))
}

/// Whether no feed in an entry holds further entries.
pub open spec fn is_tidy(o: OpmlOutline) -> bool
    decreases o,
{
    &&& o.xml_url is Some ==> o.children@.len() == 0
    &&& forall|i: int| 0 <= i < o.children@.len() ==> is_tidy(#[trigger] o.children@[i])
}

proof fn lemma_stored_both(a: Seq<StepView>, b: Seq<StepView>)
    ensures
        feeds_stored(a + b) == feeds_stored(a) + feeds_stored(b),
    decreases b.len(),
{
    if b.len() == 0 {
        assert(a + b =~= a);
        assert(feeds_stored(a) + feeds_stored(b) =~= feeds_stored(a));
    } else {
        lemma_stored_both(a, b.drop_last());
        assert((a + b).drop_last() =~= a + b.drop_last());
        assert((a + b).last() == b.last());
        assert(feeds_stored(a + b) =~= feeds_stored(a) + feeds_stored(b));
    }
}

/// Importing an entry stores just the feeds that flattening it yields, with the same titles and
/// addresses and in the same order, where no feed holds further entries.
pub proof fn import_stores_what_flattening_yields(
    o: OpmlOutline,
    at: nat,
    parent: Option<usize>,
    folder: Option<Seq<char>>,
)
    requires
        is_tidy(o),
    ensures
        feeds_stored(import::steps_of(o, at, parent)) == feeds_flattened(
            document::flat_of(o, folder),
        ),
    decreases o, 0nat,
{
    let steps = import::steps_of(o, at, parent);
    let flat = document::flat_of(o, folder);
    let children = o.children@;
    let inner = document::folder_for_children(o, folder);
    assert(flat == document::flat_entry(o, folder) + document::flat_in(
        children,
        children.len(),
        inner,
    ));
    assert(feeds_stored(Seq::<StepView>::empty()) =~= Seq::empty());
    if o.xml_url is Some {
        assert(document::flat_in(children, 0, inner).len() == 0);
        assert(steps.drop_last() =~= Seq::<StepView>::empty());
        assert(feeds_stored(steps) =~= feeds_flattened(flat));
    } else if children.len() == 0 {
        assert(feeds_stored(steps) =~= feeds_flattened(flat));
    } else {
        let first = seq![steps[0]];
        let rest = import::steps_in(children, children.len(), at + 1, Some(at as usize));
        assert(decreases_to!(o => o.children));
        assert(decreases_to!(o.children => o.children@));
        lemma_import_stores_all(children, children.len(), at + 1, Some(at as usize), inner);
        assert(steps =~= first + rest);
        lemma_stored_both(first, rest);
        assert(first.drop_last() =~= Seq::<StepView>::empty());
        assert(feeds_stored(first) =~= Seq::empty());
        assert(feeds_stored(steps) =~= feeds_stored(rest));
        assert(flat =~= document::flat_in(children, children.len(), inner));
    }
}

proof fn lemma_import_stores_all(
    os: Seq<OpmlOutline>,
    n: nat,
    at: nat,
    parent: Option<usize>,
    folder: Option<Seq<char>>,
)
    requires
        n <= os.len(),
        forall|i: int| 0 <= i < os.len() ==> is_tidy(#[trigger] os[i]),
    ensures
        feeds_stored(import::steps_in(os, n, at, parent)) == feeds_flattened(
            document::flat_in(os, n, folder),
        ),
    decreases os, n,
{
    if n == 0 {
        assert(feeds_stored(import::steps_in(os, n, at, parent)) =~= feeds_flattened(
            document::flat_in(os, n, folder),
        ));
    } else {
        let m = (n - 1) as nat;
        let before = import::steps_in(os, m, at, parent);
        let o = os[n - 1];
        assert(decreases_to!(os => o));
        lemma_import_stores_all(os, m, at, parent, folder);
        import_stores_what_flattening_yields(o, at + before.len(), parent, folder);
        lemma_stored_both(before, import::steps_of(o, at + before.len(), parent));
        assert(feeds_flattened(document::flat_in(os, n, folder)) =~= feeds_flattened(
            document::flat_in(os, m, folder),
        ) + feeds_flattened(document::flat_of(o, folder)));
    }
}

/// The names of the folders that an entry to be stored goes into, from the top down.
pub open spec fn folders_around(steps: Seq<StepView>, place: Option<usize>) -> Seq<Seq<char>>
    decreases match place {
        Some(p) => p + 1,
        None => 0int,
    },
{
    match place {
        None => Seq::empty(),
        Some(p) => if p < steps.len() {
            match steps[p as int] {
                StepView::Folder { name, parent: None } => seq![name],
                StepView::Folder { name, parent: Some(q) } => if q < p {
                    folders_around(steps, Some(q)).push(name)
                } else {
                    Seq::empty()
                },
                StepView::Feed { .. } => Seq::empty(),
            }
        } else {
            Seq::empty()
        },
    }
}

/// The names of some folders.
pub open spec fn names_of(path: Seq<FolderForExport>) -> Seq<Seq<char>> {
    path.map_values(|f: FolderForExport| f.name@)
}

/// Whether an entry to be stored is a stored feed, in the folders of these names.
pub open spec fn stores_back(
    steps: Seq<StepView>,
    k: int,
    feed: FeedForExport,
    names: Seq<Seq<char>>,
) -> bool {
    &&& 0 <= k < steps.len()
    &&& steps[k] is Feed
    &&& steps[k]->url == feed.url@
    &&& steps[k]->title == feed.title@
    &&& steps[k]->html_url == text::view_opt(feed.site_url)
    &&& folders_around(steps, steps[k]->Feed_parent) == names
}

proof fn lemma_path_is_stored_back(
    whole: Seq<StepView>,
    off: nat,
    parent: Option<usize>,
    o: OpmlOutline,
    folders: Seq<FolderForExport>,
    feeds: Seq<FeedForExport>,
    path: Seq<FolderForExport>,
    at: int,
    depth: nat,
    feed: FeedForExport,
) -> (k: int)
    requires
        tree::is_path(folders, path),
        0 <= at < path.len(),
        path.len() <= at + 1 + depth,
        tree::shows_folder(o, folders, feeds, path[at], depth),
        feeds.contains(feed),
        feed.folder_id == Some(path.last().id),
        whole.len() <= usize::MAX,
        off + import::steps_of(o, off, parent).len() <= whole.len(),
        whole.subrange(off as int, off as int + import::steps_of(o, off, parent).len())
            == import::steps_of(o, off, parent),
        parent matches Some(p) ==> p < off,
        folders_around(whole, parent) == names_of(path.take(at)),
        parent is None <==> at == 0,
    ensures
        stores_back(whole, k, feed, names_of(path)),
    decreases path.len() - at,
{
    let own = import::steps_of(o, off, parent);
    let inside = feeds.filter(tree::is_in(path[at].id));
    let below = folders.filter(tree::is_below(path[at].id));
    let i: int = if at == path.len() - 1 {
        let f = choose|f: int| 0 <= f < feeds.len() && feeds[f] == feed;
        feeds.lemma_filter_contains(tree::is_in(path[at].id), f);
        choose|i: int| 0 <= i < inside.len() && inside[i] == feed
    } else {
        let next = path[at + 1];
        assert(folders.contains(path[at + 1]));
        let f = choose|f: int| 0 <= f < folders.len() && folders[f] == next;
        folders.lemma_filter_contains(tree::is_below(path[at].id), f);
        let j = choose|j: int| 0 <= j < below.len() && below[j] == next;
        inside.len() + j
    };
    let children = o.children@;
    assert(0 <= i < children.len());
    folder_is_stored_before_what_it_holds(o, off, parent);
    assert(own.len() > 0);
    let place = Some(off as usize);
    let held = import::steps_in(children, children.len(), off + 1, place);
    entries_are_stored_in_order(children, children.len(), off + 1, place, i);
    let before = import::steps_in(children, i as nat, off + 1, place).len() as int;
    let start = (off + 1 + before) as nat;
    let steps = import::steps_of(children[i], start, place);
    assert(own.skip(1) == held);
    assert(whole[off as int] == own[0]) by {
        assert(whole.subrange(off as int, off as int + own.len())[0] == whole[off as int]);
    }
    assert(whole.subrange(start as int, start as int + steps.len()) =~= steps) by {
        assert forall|x: int| 0 <= x < steps.len() implies whole[start + x] == steps[x] by {
            assert(held.subrange(before, before + steps.len())[x] == held[before + x]);
            assert(own.skip(1)[before + x] == own[1 + before + x]);
            assert(whole.subrange(off as int, off as int + own.len())[1 + before + x] == whole[start + x]);
        }
    }
    assert(path.take(at + 1) =~= path.take(at).push(path[at]));
    assert(names_of(path.take(at + 1)) =~= names_of(path.take(at)).push(path[at].name@));
    assert(own[0]->name == path[at].name@);
    assert(folders_around(whole, place) =~= names_of(path.take(at + 1))) by {
        if at == 0 {
            assert(path.take(0) =~= Seq::<FolderForExport>::empty());
            assert(names_of(path.take(1)) =~= seq![path[0].name@]);
        }
    }
    if at == path.len() - 1 {
        assert(tree::shows_feed(children[i], inside[i]));
        feed_is_stored_under_its_name(children[i], start, place);
        assert(whole[start as int] == steps[0]) by {
            assert(whole.subrange(start as int, start as int + steps.len())[0] == whole[start as int]);
        }
        assert(path.take(at + 1) =~= path);
        start as int
    } else {
        let j = i - inside.len();
        assert(tree::shows_folder(
            children[inside.len() + j],
            folders,
            feeds,
            below[j],
            (depth - 1) as nat,
        ));
        lemma_path_is_stored_back(
            whole,
            start,
            place,
            children[i],
            folders,
            feeds,
            path,
            at + 1,
            (depth - 1) as nat,
            feed,
        )
    }
}

/// Importing what was exported stores what was stored: each feed, with its address, its title and
/// its site, in folders of the same names, one in the other, or at the top where it is in no
/// folder that is there. The entries to be stored are as many as a machine can count.
pub proof fn export_is_imported_back(
    outlines: Seq<OpmlOutline>,
    folders: Seq<FolderForExport>,
    feeds: Seq<FeedForExport>,
    path: Seq<FolderForExport>,
    feed: FeedForExport,
) -> (found: (int, int))
    requires
        tree::distinct_ids(folders),
        tree::shows_all(outlines, folders, feeds),
        feeds.contains(feed),
        forall|i: int|
            0 <= i < outlines.len() ==> import::steps_of(#[trigger] outlines[i], 0, None).len()
                <= usize::MAX,
        (tree::is_loose(folders)(feed) && path.len() == 0) || (tree::is_path(folders, path)
            && feed.folder_id == Some(path.last().id)),
    ensures
        0 <= found.0 < outlines.len(),
        stores_back(
            import::steps_of(outlines[found.0], 0, None),
            found.1,
            feed,
            names_of(path),
        ),
{
    let loose = feeds.filter(tree::is_loose(folders));
    let f = choose|f: int| 0 <= f < feeds.len() && feeds[f] == feed;
    if path.len() == 0 {
        feeds.lemma_filter_contains(tree::is_loose(folders), f);
        let i = choose|i: int| 0 <= i < loose.len() && loose[i] == feed;
        assert(tree::shows_feed(outlines[i], loose[i]));
        feed_is_stored_under_its_name(outlines[i], 0, None);
        assert(names_of(path) =~= Seq::<Seq<char>>::empty());
        (i, 0)
    } else {
        let top = path[0];
        let test = tree::is_shown(folders, feeds);
        let shown = folders.filter(test);
        tree::nesting_is_bounded(folders, path);
        if path.len() == 1 {
            feeds.lemma_filter_contains(tree::is_in(top.id), f);
        } else {
            assert(folders.contains(path[1]));
            let n = choose|n: int| 0 <= n < folders.len() && folders[n] == path[1];
            folders.lemma_filter_contains(tree::is_below(top.id), n);
        }
        assert(folders.contains(path[0]));
        let m = choose|m: int| 0 <= m < folders.len() && folders[m] == top;
        folders.lemma_filter_contains(test, m);
        let j = choose|j: int| 0 <= j < shown.len() && shown[j] == top;
        assert(shown[j] == top);
        let o = outlines[loose.len() + j];
        let whole = import::steps_of(o, 0, None);
        assert(whole.subrange(0, whole.len() as int) =~= whole);
        assert(path.take(0) =~= Seq::<FolderForExport>::empty());
        assert(names_of(path.take(0)) =~= Seq::<Seq<char>>::empty());
        let k = lemma_path_is_stored_back(
            whole,
            0,
            None,
            o,
            folders,
            feeds,
            path,
            0,
            folders.len(),
            feed,
        );
        (loose.len() + j, k)
    }
}

/// What is planned for a feed is to store it under its title, or under its text where it has no
/// title, with both its addresses. For a folder it is to store the folder before what it holds.
pub proof fn plan_stores_entries_under_their_names(o: OpmlOutline, res: Vec<ImportStep>)
    requires
        call_ensures(import::plan_outline, (&o,), res),
    ensures
        o.xml_url matches Some(address) ==> res@.len() == 1 && (
        res@[0] matches ImportStep::Feed { url, title, html_url, parent } && url@ == address@
            && title@ == (match o.title {
            Some(own) => own@,
            None => o.text@,
        }) && text::view_opt(html_url) == text::view_opt(o.html_url) && parent is None),
        o.xml_url is None && o.children@.len() == 0 ==> res@.len() == 0,
        o.xml_url is None && o.children@.len() > 0 ==> res@.len() > 0 && (
        res@[0] matches ImportStep::Folder { name, parent } && name@ == o.text@ && parent is None),
{
    feed_or_folder(o, res);
}

proof fn feed_or_folder(o: OpmlOutline, res: Vec<ImportStep>)
    requires
        import::step_views(res@) == import::steps_of(o, 0, None),
    ensures
        o.xml_url matches Some(address) ==> res@.len() == 1 && res@[0]@ == (StepView::Feed {
            url: address@,
            title: match o.title {
                Some(own) => own@,
                None => o.text@,
            },
            html_url: text::view_opt(o.html_url),
            parent: None,
        }),
        o.xml_url is None && o.children@.len() == 0 ==> res@.len() == 0,
        o.xml_url is None && o.children@.len() > 0 ==> res@.len() > 0 && res@[0]@
            == (StepView::Folder { name: o.text@, parent: None }),
{
    assert(import::step_views(res@).len() == res@.len());
    if o.xml_url is Some {
        feed_is_stored_under_its_name(o, 0, None);
        assert(import::step_views(res@)[0] == res@[0]@);
    } else {
        folder_is_stored_before_what_it_holds(o, 0, None);
        if o.children@.len() > 0 {
            assert(import::step_views(res@)[0] == res@[0]@);
        }
    }
}

} // verus!
