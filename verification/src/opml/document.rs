//! OPML documents: trees of folders and feeds.

use vstd::prelude::*;
use vstd::string::*;

use crate::text;

verus! {

/// An entry of an OPML document: a feed, or a folder that holds further entries.
#[derive(Debug)]
pub struct OpmlOutline {
    pub text: String,
    pub title: Option<String>,
    pub outline_type: Option<String>,
    pub xml_url: Option<String>,
    pub html_url: Option<String>,
    pub description: Option<String>,
    pub children: Vec<OpmlOutline>,
}

/// An OPML document.
#[derive(Debug)]
pub struct OpmlDocument {
    pub title: Option<String>,
    pub date_created: Option<String>,
    pub owner_email: Option<String>,
    pub outlines: Vec<OpmlOutline>,
}

/// Whether `o` is the entry of a feed without children.
pub open spec fn is_feed_entry(
    o: OpmlOutline,
    title: Seq<char>,
    xml_url: Seq<char>,
    html_url: Option<Seq<char>>,
) -> bool {
    &&& o.text@ == title
    &&& text::view_opt(o.title) == Some(title)
    &&& text::view_opt(o.outline_type) == Some("rss"@)
    &&& text::view_opt(o.xml_url) == Some(xml_url)
    &&& text::view_opt(o.html_url) == html_url
    &&& o.description is None
    &&& o.children@.len() == 0
}

/// Whether `o` is the entry of a folder, apart from what the folder holds.
pub open spec fn is_folder_entry(o: OpmlOutline, name: Seq<char>) -> bool {
    &&& o.text@ == name
    &&& text::view_opt(o.title) == Some(name)
    &&& o.outline_type is None
    &&& o.xml_url is None
    &&& o.html_url is None
    &&& o.description is None
}

impl OpmlOutline {
    /// The entry of a feed.
    pub fn feed(title: String, xml_url: String, html_url: Option<String>) -> (res: Self)
        ensures
            is_feed_entry(res, title@, xml_url@, text::view_opt(html_url)),
    {
        OpmlOutline {
            text: title.clone(),
            title: Some(title),
            outline_type: Some("rss".to_string()),
            xml_url: Some(xml_url),
            html_url,
            description: None,
            children: Vec::new(),
        }
    }

    /// The entry of an empty folder.
    pub fn folder(name: String) -> (res: Self)
        ensures
            is_folder_entry(res, name@),
            res.children@.len() == 0,
    {
        OpmlOutline {
            text: name.clone(),
            title: Some(name),
            outline_type: None,
            xml_url: None,
            html_url: None,
            description: None,
            children: Vec::new(),
        }
    }

    /// An entry is that of a feed if and only if it has a feed address.
    pub fn is_feed(&self) -> (res: bool)
        ensures
            res == (self.xml_url is Some),
    {
        self.xml_url.is_some()
    }
}

impl OpmlDocument {
    /// A document without entries.
    pub fn new(title: Option<String>) -> (res: Self)
        ensures
            res.title == title,
            res.date_created is None,
            res.owner_email is None,
            res.outlines@.len() == 0,
    {
        OpmlDocument { title, date_created: None, owner_email: None, outlines: Vec::new() }
    }

    /// The number of feeds in the document, at any depth. It saturates at the largest
    /// machine number.
    pub fn feed_count(&self) -> (res: usize)
        ensures
            res == capped(feeds_in(self.outlines@, self.outlines@.len())),
    {
        count_entries(&self.outlines, true)
    }

    /// The number of folders in the document, at any depth. It saturates at the largest
    /// machine number.
    pub fn folder_count(&self) -> (res: usize)
        ensures
            res == capped(folders_in(self.outlines@, self.outlines@.len())),
    {
        count_entries(&self.outlines, false)
    }
}

/// `n`, or the largest machine number where `n` is larger.
pub open spec fn capped(n: nat) -> usize {
    if n <= usize::MAX {
        n as usize
    } else {
        usize::MAX
    }
}

/// How many entries of one kind a single entry holds, itself counted.
pub open spec fn entries_of(o: OpmlOutline, feeds: bool) -> nat
    decreases o, 0nat,
{
    entries_in(o.children@, o.children@.len(), feeds) + if (o.xml_url is Some) == feeds {
        1nat
    } else {
        0nat
    }
}

/// How many entries of one kind the first `n` of some entries hold, at any depth.
pub open spec fn entries_in(os: Seq<OpmlOutline>, n: nat, feeds: bool) -> nat
    decreases os, n,
{
    if n == 0 || n > os.len() {
        0
    } else {
        entries_in(os, (n - 1) as nat, feeds) + entries_of(os[n - 1], feeds)
    }
}

/// How many feeds the first `n` of some entries hold, at any depth.
pub open spec fn feeds_in(os: Seq<OpmlOutline>, n: nat) -> nat {
    entries_in(os, n, true)
}

/// How many folders the first `n` of some entries hold, at any depth.
pub open spec fn folders_in(os: Seq<OpmlOutline>, n: nat) -> nat {
    entries_in(os, n, false)
}

fn count_entries(outlines: &Vec<OpmlOutline>, feeds: bool) -> (res: usize)
    ensures
        res == capped(entries_in(outlines@, outlines@.len(), feeds)),
    decreases outlines,
{
    let mut count: usize = 0;
    let mut i: usize = 0;
    while i < outlines.len()
        invariant
            i <= outlines@.len(),
            count == capped(entries_in(outlines@, i as nat, feeds)),
        decreases outlines@.len() - i,
    {
        let outline: &OpmlOutline = &outlines[i];
        proof {
            assert(decreases_to!(outlines => outlines@));
            assert(decreases_to!(outlines@ => outlines@[i as int]));
        }
        let inside: usize = count_entries(&outline.children, feeds);
        count = count.saturating_add(inside);
        if outline.is_feed() == feeds {
            count = count.saturating_add(1);
        }
        proof {
            assert(entries_of(*outline, feeds) == entries_in(
                outline.children@,
                outline.children@.len(),
                feeds,
            ) + if (outline.xml_url is Some) == feeds {
                1nat
            } else {
                0nat
            });
        }
        i += 1;
    }
    count
}

/// A feed of an OPML document together with the folder that holds it.
#[derive(Debug)]
pub struct FlatFeed {
    pub title: String,
    pub xml_url: String,
    pub html_url: Option<String>,
    pub folder: Option<String>,
}

/// What is known of a feed of an OPML document.
#[verifier::ext_equal]
pub struct FlatFeedView {
    pub title: Seq<char>,
    pub xml_url: Seq<char>,
    pub html_url: Option<Seq<char>>,
    pub folder: Option<Seq<char>>,
}

impl View for FlatFeed {
    type V = FlatFeedView;

    open spec fn view(&self) -> FlatFeedView {
        FlatFeedView {
            title: self.title@,
            xml_url: self.xml_url@,
            html_url: text::view_opt(self.html_url),
            folder: text::view_opt(self.folder),
        }
    }
}

impl FlatFeed {
    /// A copy of what is known of the feed.
    pub fn duplicate(&self) -> (res: FlatFeed)
        ensures
            res@ == self@,
    {
        FlatFeed {
            title: self.title.clone(),
            xml_url: self.xml_url.clone(),
            html_url: text::clone_opt(&self.html_url),
            folder: text::clone_opt(&self.folder),
        }
    }
}

/// What is known of several feeds.
pub open spec fn flat_views(feeds: Seq<FlatFeed>) -> Seq<FlatFeedView> {
    feeds.map_values(|f: FlatFeed| f@)
}

/// The feed that an entry stands for, in the folder that holds the entry.
pub open spec fn flat_entry(o: OpmlOutline, folder: Option<Seq<char>>) -> Seq<FlatFeedView> {
    match o.xml_url {
        Some(url) => seq![
            FlatFeedView {
                title: match o.title {
                    Some(title) => title@,
                    None => o.text@,
                },
                xml_url: url@,
                html_url: text::view_opt(o.html_url),
                folder,
            },
        ],
        None => Seq::empty(),
    }
}

/// The folder that the children of an entry are in: the entry itself, unless it is a feed.
pub open spec fn folder_for_children(
    o: OpmlOutline,
    folder: Option<Seq<char>>,
) -> Option<Seq<char>> {
    if o.xml_url is None {
        Some(o.text@)
    } else {
        folder
    }
}

/// The feeds that an entry holds, itself first, its children in order.
pub open spec fn flat_of(o: OpmlOutline, folder: Option<Seq<char>>) -> Seq<FlatFeedView>
    decreases o, 0nat,
{
    flat_entry(o, folder) + flat_in(
        o.children@,
        o.children@.len(),
        folder_for_children(o, folder),
    )
}

/// The feeds that the first `n` of some entries hold, in document order.
pub open spec fn flat_in(
    os: Seq<OpmlOutline>,
    n: nat,
    folder: Option<Seq<char>>,
) -> Seq<FlatFeedView>
    decreases os, n,
{
    if n == 0 || n > os.len() {
        Seq::empty()
    } else {
        flat_in(os, (n - 1) as nat, folder) + flat_of(os[n - 1], folder)
    }
}

fn append_feeds(feeds: &mut Vec<FlatFeed>, outlines: &Vec<OpmlOutline>, folder: Option<&str>)
    ensures
        flat_views(final(feeds)@) == flat_views(old(feeds)@) + flat_in(
            outlines@,
            outlines@.len(),
            match folder {
                Some(name) => Some(name@),
                None => None,
            },
        ),
    decreases outlines,
{
    let ghost before = flat_views(feeds@);
    let ghost parent: Option<Seq<char>> = match folder {
        Some(name) => Some(name@),
        None => None,
    };
    let mut i: usize = 0;
    proof {
        assert(before + flat_in(outlines@, 0, parent) =~= before);
    }
    while i < outlines.len()
        invariant
            i <= outlines@.len(),
            flat_views(feeds@) == before + flat_in(outlines@, i as nat, parent),
            parent == (match folder {
                Some(name) => Some(name@),
                None => None,
            }),
        decreases outlines@.len() - i,
    {
        let outline: &OpmlOutline = &outlines[i];
        let ghost so_far = feeds@;
        if let Some(xml_url) = &outline.xml_url {
            let title: String = match &outline.title {
                Some(title) => title.clone(),
                None => outline.text.clone(),
            };
            let holder: Option<String> = match folder {
                Some(name) => Some(name.to_string()),
                None => None,
            };
            let feed: FlatFeed = FlatFeed {
                title,
                xml_url: xml_url.clone(),
                html_url: text::clone_opt(&outline.html_url),
                folder: holder,
            };
            feeds.push(feed);
            proof {
                assert(flat_views(feeds@) =~= flat_views(so_far) + flat_entry(*outline, parent));
            }
        } else {
            proof {
                assert(flat_views(feeds@) =~= flat_views(so_far) + flat_entry(*outline, parent));
            }
        }
        let inner: Option<&str> = if outline.xml_url.is_none() {
            Some(outline.text.as_str())
        } else {
            folder
        };
        proof {
            assert(decreases_to!(outlines => outlines@));
            assert(decreases_to!(outlines@ => outlines@[i as int]));
        }
        append_feeds(feeds, &outline.children, inner);
        proof {
            assert(flat_of(*outline, parent) == flat_entry(*outline, parent) + flat_in(
                outline.children@,
                outline.children@.len(),
                folder_for_children(*outline, parent),
            ));
            assert(flat_views(feeds@) =~= before + flat_in(outlines@, (i + 1) as nat, parent));
        }
        i += 1;
    }
}

/// The feeds of some entries in document order, each with the name of the innermost folder
/// around it, or `parent_folder` where there is none.
pub fn flatten_outlines(outlines: &Vec<OpmlOutline>, parent_folder: Option<&str>) -> (res: Vec<
    FlatFeed,
>)
    ensures
        flat_views(res@) == flat_in(
            outlines@,
            outlines@.len(),
            match parent_folder {
                Some(name) => Some(name@),
                None => None,
            },
        ),
{
    let mut feeds: Vec<FlatFeed> = Vec::new();
    append_feeds(&mut feeds, outlines, parent_folder);
    proof {
        assert(flat_views(Seq::<FlatFeed>::empty()) =~= Seq::<FlatFeedView>::empty());
        assert(flat_views(feeds@) =~= flat_in(
            outlines@,
            outlines@.len(),
            match parent_folder {
                Some(name) => Some(name@),
                None => None,
            },
        ));
    }
    feeds
}

/// Flattening loses no feed and adds none: it yields as many feeds as the entries hold.
pub proof fn flattening_keeps_every_feed(
    os: Seq<OpmlOutline>,
    n: nat,
    folder: Option<Seq<char>>,
)
    requires
        n <= os.len(),
    ensures
        flat_in(os, n, folder).len() == feeds_in(os, n),
    decreases os, n,
{
    if n > 0 {
        flattening_keeps_every_feed(os, (n - 1) as nat, folder);
        let o = os[n - 1];
        assert(decreases_to!(os => o));
        let inner = folder_for_children(o, folder);
        flattening_keeps_every_feed(o.children@, o.children@.len(), inner);
        assert(flat_of(o, folder) == flat_entry(o, folder) + flat_in(
            o.children@,
            o.children@.len(),
            inner,
        ));
        assert(entries_of(o, true) == feeds_in(o.children@, o.children@.len()) + if o.xml_url is Some {
            1nat
        } else {
            0nat
        });
    }
}

/// A feed is flattened under the name that the document gives it, its title or else its text, with
/// both its addresses, and in the folder around it.
pub proof fn flattened_feed_keeps_its_name(o: OpmlOutline, folder: Option<Seq<char>>)
    ensures
        o.xml_url is None ==> flat_entry(o, folder).len() == 0,
        o.xml_url matches Some(url) ==> {
            let flat = flat_of(o, folder)[0];
            &&& flat_of(o, folder).len() > 0
            &&& flat.xml_url == url@
            &&& o.title matches Some(title) ==> flat.title == title@
            &&& o.title is None ==> flat.title == o.text@
            &&& flat.html_url == text::view_opt(o.html_url)
            &&& flat.folder == folder
        },
{
}

/// What is in a folder is flattened into that folder, by its text, and what is in a feed into the
/// folder around the feed: entry by entry, and nothing in between.
pub proof fn flattened_feeds_name_their_folder(
    o: OpmlOutline,
    folder: Option<Seq<char>>,
    a: Seq<OpmlOutline>,
    b: Seq<OpmlOutline>,
)
    requires
        o.children@ == a + b,
    ensures
        o.xml_url is None ==> flat_of(o, folder) == flat_in(a, a.len(), Some(o.text@)) + flat_in(
            b,
            b.len(),
            Some(o.text@),
        ),
        o.xml_url is Some ==> flat_of(o, folder) == seq![flat_of(o, folder)[0]] + flat_in(
            a,
            a.len(),
            folder,
        ) + flat_in(b, b.len(), folder),
{
    let inner = folder_for_children(o, folder);
    lemma_flat_both(a, b, inner);
    assert(flat_of(o, folder) == flat_entry(o, folder) + flat_in(
        o.children@,
        o.children@.len(),
        inner,
    ));
    if o.xml_url is None {
        assert(flat_of(o, folder) =~= flat_in(a, a.len(), inner) + flat_in(b, b.len(), inner));
    } else {
        assert(flat_of(o, folder) =~= seq![flat_of(o, folder)[0]] + flat_in(a, a.len(), folder)
            + flat_in(b, b.len(), folder));
    }
}

/// Flattening goes entry by entry.
proof fn lemma_flat_both(a: Seq<OpmlOutline>, b: Seq<OpmlOutline>, folder: Option<Seq<char>>)
    ensures
        flat_in(a + b, (a + b).len(), folder) == flat_in(a, a.len(), folder) + flat_in(
            b,
            b.len(),
            folder,
        ),
    decreases b.len(),
{
    if b.len() == 0 {
        assert(a + b =~= a);
        assert(flat_in(a, a.len(), folder) + flat_in(b, 0, folder) =~= flat_in(
            a,
            a.len(),
            folder,
        ));
    } else {
        let fewer = b.drop_last();
        lemma_flat_both(a, fewer, folder);
        assert((a + b).drop_last() =~= a + fewer);
        lemma_flat_first(a + b, a + fewer, (a + fewer).len(), folder);
        lemma_flat_first(b, fewer, fewer.len(), folder);
        assert((a + b)[(a + b).len() - 1] == b[b.len() - 1]);
        assert(flat_in(a + b, (a + b).len(), folder) =~= flat_in(a, a.len(), folder) + flat_in(
            b,
            b.len(),
            folder,
        ));
    }
}

proof fn lemma_flat_first(
    a: Seq<OpmlOutline>,
    b: Seq<OpmlOutline>,
    n: nat,
    folder: Option<Seq<char>>,
)
    requires
        n <= a.len(),
        n <= b.len(),
        forall|i: int| 0 <= i < n ==> a[i] == b[i],
    ensures
        flat_in(a, n, folder) == flat_in(b, n, folder),
    decreases n,
{
    if n > 0 {
        lemma_flat_first(a, b, (n - 1) as nat, folder);
        assert(a[n - 1] == b[n - 1]);
    }
}

/// A document that is put together of two counts the feeds of both, and an entry is that of a
/// feed if and only if it has a feed address.
pub proof fn feeds_of_both_are_counted(
    entry: OpmlOutline,
    is_one: bool,
    a: OpmlDocument,
    in_a: usize,
    folders_a: usize,
    b: OpmlDocument,
    in_b: usize,
    folders_b: usize,
    all: OpmlDocument,
    res: usize,
    folders: usize,
)
    requires
        all.outlines@ == a.outlines@ + b.outlines@,
        call_ensures(OpmlOutline::is_feed, (&entry,), is_one),
        call_ensures(OpmlDocument::feed_count, (&a,), in_a),
        call_ensures(OpmlDocument::feed_count, (&b,), in_b),
        call_ensures(OpmlDocument::feed_count, (&all,), res),
        call_ensures(OpmlDocument::folder_count, (&a,), folders_a),
        call_ensures(OpmlDocument::folder_count, (&b,), folders_b),
        call_ensures(OpmlDocument::folder_count, (&all,), folders),
    ensures
        is_one <==> entry.xml_url is Some,
        res < usize::MAX ==> res == in_a + in_b,
        folders < usize::MAX ==> folders == folders_a + folders_b,
        in_a + in_b < usize::MAX ==> res == in_a + in_b,
        folders_a + folders_b < usize::MAX ==> folders == folders_a + folders_b,
{
    lemma_entries_add_up(a.outlines@, b.outlines@, b.outlines@.len(), true);
    lemma_entries_add_up(a.outlines@, b.outlines@, b.outlines@.len(), false);
}

proof fn lemma_entries_add_up(a: Seq<OpmlOutline>, b: Seq<OpmlOutline>, n: nat, feeds: bool)
    requires
        n <= b.len(),
    ensures
        entries_in(a + b, a.len() + n, feeds) == entries_in(a, a.len(), feeds) + entries_in(
            b,
            n,
            feeds,
        ),
    decreases n,
{
    if n > 0 {
        lemma_entries_add_up(a, b, (n - 1) as nat, feeds);
        assert((a + b)[a.len() + n - 1] == b[n - 1]);
        assert((a.len() + n - 1) as nat == a.len() + ((n - 1) as nat));
    } else {
        lemma_entries_of_first(a, b, a.len(), feeds);
    }
}

proof fn lemma_entries_of_first(a: Seq<OpmlOutline>, b: Seq<OpmlOutline>, n: nat, feeds: bool)
    requires
        n <= a.len(),
    ensures
        entries_in(a + b, n, feeds) == entries_in(a, n, feeds),
    decreases n,
{
    if n > 0 {
        lemma_entries_of_first(a, b, (n - 1) as nat, feeds);
        assert((a + b)[n - 1] == a[n - 1]);
    }
}

/// A document with one entry, that of a feed without anything in it, has one feed and no folder.
/// With one entry without a feed address, it has one folder more than what that entry holds.
pub proof fn single_entry_is_counted(doc: OpmlDocument, inner: OpmlDocument, feeds: usize,
    folders: usize, inner_feeds: usize, inner_folders: usize)
    requires
        doc.outlines@.len() == 1,
        inner.outlines@ == doc.outlines@[0].children@,
        call_ensures(OpmlDocument::feed_count, (&doc,), feeds),
        call_ensures(OpmlDocument::folder_count, (&doc,), folders),
        call_ensures(OpmlDocument::feed_count, (&inner,), inner_feeds),
        call_ensures(OpmlDocument::folder_count, (&inner,), inner_folders),
        inner_feeds < usize::MAX,
        inner_folders < usize::MAX,
    ensures
        doc.outlines@[0].xml_url is Some ==> feeds == inner_feeds + 1 && folders == inner_folders,
        doc.outlines@[0].xml_url is None && inner.outlines@.len() > 0 ==> feeds == inner_feeds
            && folders == inner_folders + 1,
{
    reveal_with_fuel(entries_in, 3);
    reveal_with_fuel(entries_of, 2);
}

/// Flattening the entries of two documents gives the feeds of the first and then those of the
/// second, and an entry with a feed address becomes a feed of the folder around it.
pub proof fn flattening_goes_entry_by_entry(
    a: Vec<OpmlOutline>,
    first: Vec<FlatFeed>,
    b: Vec<OpmlOutline>,
    second: Vec<FlatFeed>,
    all: Vec<OpmlOutline>,
    folder: Option<&str>,
    res: Vec<FlatFeed>,
)
    requires
        all@ == a@ + b@,
        call_ensures(flatten_outlines, (&a, folder), first),
        call_ensures(flatten_outlines, (&b, folder), second),
        call_ensures(flatten_outlines, (&all, folder), res),
    ensures
        flat_views(res@) == flat_views(first@) + flat_views(second@),
        a@.len() > 0 && a@[0].xml_url is Some ==> {
            &&& first@.len() > 0
            &&& first@[0].xml_url@ == a@[0].xml_url->0@
            &&& a@[0].title matches Some(title) ==> first@[0].title@ == title@
            &&& a@[0].title is None ==> first@[0].title@ == a@[0].text@
            &&& text::view_opt(first@[0].html_url) == text::view_opt(a@[0].html_url)
            &&& first@[0].folder is Some <==> folder is Some
            &&& folder matches Some(name) ==> first@[0].folder->0@ == name@
        },
{
    let around = match folder {
        Some(name) => Some(name@),
        None => None,
    };
    lemma_flat_adds_up(a@, b@, b@.len(), around);
    if a@.len() > 0 && a@[0].xml_url is Some {
        let flat = flat_of(a@[0], around);
        flattened_feed_keeps_its_name(a@[0], around);
        lemma_flat_begins(a@, a@.len(), around);
        assert(flat_views(first@).len() == first@.len());
        assert(flat_views(first@)[0] == flat[0]);
        assert(flat_views(first@)[0] == first@[0]@);
    }
}

proof fn lemma_flat_begins(os: Seq<OpmlOutline>, n: nat, folder: Option<Seq<char>>)
    requires
        0 < n <= os.len(),
        flat_of(os[0], folder).len() > 0,
    ensures
        flat_in(os, n, folder).len() > 0,
        flat_in(os, n, folder)[0] == flat_of(os[0], folder)[0],
    decreases n,
{
    if n > 1 {
        lemma_flat_begins(os, (n - 1) as nat, folder);
    } else {
        assert(flat_in(os, 0, folder) =~= Seq::<FlatFeedView>::empty());
    }
}

proof fn lemma_flat_adds_up(
    a: Seq<OpmlOutline>,
    b: Seq<OpmlOutline>,
    n: nat,
    folder: Option<Seq<char>>,
)
    requires
        n <= b.len(),
    ensures
        flat_in(a + b, a.len() + n, folder) == flat_in(a, a.len(), folder) + flat_in(b, n, folder),
    decreases n,
{
    if n > 0 {
        lemma_flat_adds_up(a, b, (n - 1) as nat, folder);
        assert((a + b)[a.len() + n - 1] == b[n - 1]);
        assert((a.len() + n - 1) as nat == a.len() + ((n - 1) as nat));
        assert(flat_in(a + b, a.len() + n, folder) =~= flat_in(a, a.len(), folder) + flat_in(
            b,
            n,
            folder,
        ));
    } else {
        lemma_flat_of_first(a, b, a.len(), folder);
        assert(flat_in(b, 0, folder) =~= Seq::<FlatFeedView>::empty());
        assert(flat_in(a, a.len(), folder) + flat_in(b, 0, folder) =~= flat_in(
            a,
            a.len(),
            folder,
        ));
    }
}

proof fn lemma_flat_of_first(
    a: Seq<OpmlOutline>,
    b: Seq<OpmlOutline>,
    n: nat,
    folder: Option<Seq<char>>,
)
    requires
        n <= a.len(),
    ensures
        flat_in(a + b, n, folder) == flat_in(a, n, folder),
    decreases n,
{
    if n > 0 {
        lemma_flat_of_first(a, b, (n - 1) as nat, folder);
        assert((a + b)[n - 1] == a[n - 1]);
    }
}

/// A new document has its title and nothing else.
pub proof fn new_document_is_empty(title: Option<String>, res: OpmlDocument)
    requires
        call_ensures(OpmlDocument::new, (title,), res),
    ensures
        res.title == title,
        res.date_created is None && res.owner_email is None && res.outlines@.len() == 0,
{
}

/// The copy of a feed says what the feed says.
pub proof fn copied_feed_is_the_same(feed: FlatFeed, res: FlatFeed)
    requires
        call_ensures(FlatFeed::duplicate, (&feed,), res),
    ensures
        res.title@ == feed.title@ && res.xml_url@ == feed.xml_url@,
        text::view_opt(res.html_url) == text::view_opt(feed.html_url),
        text::view_opt(res.folder) == text::view_opt(feed.folder),
{
    assert(res@ == feed@);
}

} // verus!
