//! A bounded look at some sources for the first new article that a rule picks.

use vstd::prelude::*;
use vstd::string::*;

use crate::curated::export;
use crate::hash;
use crate::ids;
use crate::ids::Uuid;
use crate::opml::document;
use crate::opml::document::FlatFeed;
use crate::text;

verus! {

/// How much is looked at.
#[derive(Clone, Copy, Debug)]
pub struct SyncLimits {
    pub max_sources: usize,
    pub max_items_per_source: usize,
    pub max_total_items: usize,
}

/// An item that a source has delivered: the digest of its guid, and whether the rule picks it.
#[derive(Debug)]
pub struct SyncItem {
    pub digest: String,
    pub matched: bool,
}

impl SyncItem {
    /// An item with a guid.
    pub fn new(guid: &str, matched: bool) -> (res: Self)
        ensures
            res.digest@ == export::tag(guid@),
            res.matched == matched,
    {
        SyncItem { digest: hash::sha256_tag(guid.as_bytes()), matched }
    }
}

/// How far a look has come.
#[derive(Debug)]
pub struct SyncProgress {
    limits: SyncLimits,
    seen: Vec<String>,
    sources_fetched: usize,
    previously_seen_items: usize,
    inspected_hashes: Vec<String>,
    selection: Option<(usize, usize)>,
}

/// What is known of a look: the limits, the digests of the items that were known before, the
/// number of sources that have delivered, the digests of the items looked at, how many of
/// them were known before, and the picked item by its source and its place in it.
#[verifier::ext_equal]
pub struct SyncView {
    pub limits: SyncLimits,
    pub seen: Seq<Seq<char>>,
    pub sources_fetched: nat,
    pub inspected: Seq<Seq<char>>,
    pub previously_seen: nat,
    pub selection: Option<(usize, usize)>,
}

/// Whether an item was known before.
pub open spec fn is_seen(seen: Seq<Seq<char>>, item: SyncItem) -> bool {
    seen.contains(item.digest@)
}

/// Whether an item is new and the rule picks it.
pub open spec fn is_new_match(seen: Seq<Seq<char>>, item: SyncItem) -> bool {
    item.matched && !is_seen(seen, item)
}

impl SyncView {
    /// The start of a look.
    pub open spec fn start(limits: SyncLimits, seen: Seq<Seq<char>>) -> SyncView {
        SyncView {
            limits,
            seen,
            sources_fetched: 0,
            inspected: Seq::empty(),
            previously_seen: 0,
            selection: None,
        }
    }

    /// Whether as many items have been looked at as may be.
    pub open spec fn is_full(self) -> bool {
        self.inspected.len() >= self.limits.max_total_items
    }

    /// The look after one more item of the source at hand.
    pub open spec fn after_item(self, item: SyncItem, place: usize) -> SyncView {
        if self.is_full() {
            self
        } else {
            SyncView {
                inspected: self.inspected.push(item.digest@),
                previously_seen: self.previously_seen + if is_seen(self.seen, item) {
                    1nat
                } else {
                    0nat
                },
                selection: if self.selection is None && is_new_match(self.seen, item) {
                    Some(((self.sources_fetched - 1) as usize, place))
                } else {
                    self.selection
                },
                ..self
            }
        }
    }

    /// The look after the first `n` items of the source at hand.
    pub open spec fn after_items(self, items: Seq<SyncItem>, n: nat) -> SyncView
        decreases n,
    {
        if n == 0 {
            self
        } else {
            self.after_items(items, (n - 1) as nat).after_item(
                items[n - 1],
                (n - 1) as usize,
            )
        }
    }

    /// How many of the items of a source are looked at, as far as the limit for a source goes.
    pub open spec fn taken(self, items: Seq<SyncItem>) -> nat {
        if items.len() <= self.limits.max_items_per_source {
            items.len()
        } else {
            self.limits.max_items_per_source as nat
        }
    }

    /// The look after one more source has delivered.
    pub open spec fn after_source(self, items: Seq<SyncItem>) -> SyncView {
        SyncView { sources_fetched: self.sources_fetched + 1, ..self }.after_items(
            items,
            self.taken(items),
        )
    }
}

impl View for SyncProgress {
    type V = SyncView;

    closed spec fn view(&self) -> SyncView {
        SyncView {
            limits: self.limits,
            seen: text::views(self.seen@),
            sources_fetched: self.sources_fetched as nat,
            inspected: text::views(self.inspected_hashes@),
            previously_seen: self.previously_seen_items as nat,
            selection: self.selection,
        }
    }
}

impl SyncProgress {
    /// No more items have been looked at than may be, and no more of them were known before
    /// than have been looked at.
    pub closed spec fn wf(self) -> bool {
        &&& self.inspected_hashes@.len() <= self.limits.max_total_items
        &&& self.previously_seen_items <= self.inspected_hashes@.len()
    }

    /// A look that stays within its limits.
    pub proof fn stays_within_limits(self)
        requires
            self.wf(),
        ensures
            self@.inspected.len() <= self@.limits.max_total_items,
            self@.previously_seen <= self@.inspected.len(),
    {
    }

    /// A look at nothing yet.
    pub fn new(limits: SyncLimits, seen: Vec<String>) -> (res: Self)
        ensures
            res.wf(),
            res@ == SyncView::start(limits, text::views(seen@)),
    {
        let res: SyncProgress = SyncProgress {
            limits,
            seen,
            sources_fetched: 0,
            previously_seen_items: 0,
            inspected_hashes: Vec::new(),
            selection: None,
        };
        proof {
            assert(res@ =~= SyncView::start(limits, text::views(seen@)));
        }
        res
    }

    /// The next source to fetch of `count`, unless enough has been looked at.
    pub fn next_source(&self, count: usize) -> (res: Option<usize>)
        ensures
            res == if self@.is_full() || self@.sources_fetched >= count {
                None
            } else {
                Some(self@.sources_fetched as usize)
            },
    {
        if self.inspected_hashes.len() >= self.limits.max_total_items || self.sources_fetched
            >= count {
            None
        } else {
            Some(self.sources_fetched)
        }
    }

    fn has_seen(&self, digest: &str) -> (res: bool)
        ensures
            res == self@.seen.contains(digest@),
    {
        let mut i: usize = 0;
        while i < self.seen.len()
            invariant
                i <= self.seen@.len(),
                forall|j: int| 0 <= j < i ==> (#[trigger] self.seen@[j])@ != digest@,
            decreases self.seen@.len() - i,
        {
            if text::same(self.seen[i].as_str(), digest) {
                proof {
                    assert(self@.seen[i as int] == digest@);
                }
                return true;
            }
            i += 1;
        }
        proof {
            assert forall|j: int| 0 <= j < self@.seen.len() implies self@.seen[j] != digest@ by {
                assert(self.seen@[j]@ != digest@);
            }
        }
        false
    }

    fn inspect(&mut self, item: &SyncItem, place: usize)
        requires
            old(self).wf(),
            old(self)@.sources_fetched > 0,
        ensures
            final(self).wf(),
            final(self)@ == old(self)@.after_item(*item, place),
    {
        let ghost before = self@;
        if self.inspected_hashes.len() < self.limits.max_total_items {
            let digest: String = item.digest.clone();
            let known: bool = self.has_seen(digest.as_str());
            let ghost hashes = self.inspected_hashes@;
            self.inspected_hashes.push(digest);
            proof {
                assert(text::views(self.inspected_hashes@) =~= text::views(hashes).push(digest@));
            }
            if known {
                self.previously_seen_items = self.previously_seen_items + 1;
            } else if self.selection.is_none() && item.matched {
                self.selection = Some((self.sources_fetched - 1, place));
            }
        }
        proof {
            assert(self@ =~= before.after_item(*item, place));
        }
    }

    /// Looks at what the next source has delivered.
    pub fn take_source(&mut self, items: &Vec<SyncItem>)
        requires
            old(self).wf(),
            old(self)@.sources_fetched < usize::MAX,
        ensures
            final(self).wf(),
            final(self)@ == old(self)@.after_source(items@),
    {
        let ghost started = SyncView { sources_fetched: self@.sources_fetched + 1, ..self@ };
        self.sources_fetched = self.sources_fetched + 1;
        let count: usize = if items.len() <= self.limits.max_items_per_source {
            items.len()
        } else {
            self.limits.max_items_per_source
        };
        let mut i: usize = 0;
        proof {
            assert(self@ =~= started);
        }
        while i < count
            invariant
                i <= count <= items@.len(),
                self.wf(),
                self@ == started.after_items(items@, i as nat),
                self@.sources_fetched > 0,
            decreases count - i,
        {
            self.inspect(&items[i], i);
            i += 1;
        }
    }

    /// The picked item: its source, and its place among what that source delivered.
    pub fn selection(&self) -> (res: Option<(usize, usize)>)
        ensures
            res == self@.selection,
    {
        self.selection
    }

    /// The digests of the items looked at.
    pub fn into_inspected_hashes(self) -> (res: Vec<String>)
        ensures
            text::views(res@) == self@.inspected,
    {
        self.inspected_hashes
    }

    /// The report on a look: it is ready where there is an export, else empty.
    pub fn summary(
        &self,
        sources_imported: usize,
        export_id: Option<String>,
        state_format: &str,
    ) -> (res: SyncCuratedSummary)
        ensures
            res.status@ == if export_id is Some {
                "ready"@
            } else {
                "empty"@
            },
            res.sources_imported == sources_imported,
            res.sources_fetched == self@.sources_fetched,
            res.items_inspected == self@.inspected.len(),
            res.previously_seen_items == self@.previously_seen,
            res.export_id == export_id,
            res.output_written == (export_id is Some),
            res.state_format@ == state_format@,
    {
        let written: bool = export_id.is_some();
        let status: &str = if written {
            "ready"
        } else {
            "empty"
        };
        SyncCuratedSummary {
            status: status.to_string(),
            sources_imported,
            sources_fetched: self.sources_fetched,
            items_inspected: self.inspected_hashes.len(),
            previously_seen_items: self.previously_seen_items,
            export_id,
            output_written: written,
            state_format: state_format.to_string(),
        }
    }
}

/// The report on a look.
#[derive(Debug)]
pub struct SyncCuratedSummary {
    pub status: String,
    pub sources_imported: usize,
    pub sources_fetched: usize,
    pub items_inspected: usize,
    pub previously_seen_items: usize,
    pub export_id: Option<String>,
    pub output_written: bool,
    pub state_format: String,
}

/// What a look does with the items of a source stays within both limits.
pub proof fn look_is_bounded(view: SyncView, items: Seq<SyncItem>, n: nat)
    requires
        view.inspected.len() <= view.limits.max_total_items,
        n <= items.len(),
    ensures
        view.after_items(items, n).inspected.len() <= view.limits.max_total_items,
        view.after_items(items, n).inspected.len() <= view.inspected.len() + n,
        view.after_items(items, n).limits == view.limits,
        view.after_items(items, n).seen == view.seen,
        view.after_items(items, n).sources_fetched == view.sources_fetched,
    decreases n,
{
    if n > 0 {
        look_is_bounded(view, items, (n - 1) as nat);
    }
}

/// A look picks the first item that is new and that the rule picks: an item once picked
/// stays, and of the items of a source that are looked at, none before the picked one is a
/// new match.
pub proof fn first_new_match_is_picked(view: SyncView, items: Seq<SyncItem>, n: nat)
    requires
        view.inspected.len() <= view.limits.max_total_items,
        view.sources_fetched <= usize::MAX,
        n <= items.len() <= usize::MAX,
    ensures
        view.selection is Some ==> view.after_items(items, n).selection == view.selection,
        view.selection is None ==> match view.after_items(items, n).selection {
            Some((source, place)) => {
                &&& source == (view.sources_fetched - 1) as usize
                &&& place < n
                &&& view.inspected.len() + place < view.limits.max_total_items
                &&& is_new_match(view.seen, items[place as int])
                &&& forall|j: int| 0 <= j < place ==> !is_new_match(view.seen, #[trigger] items[j])
            },
            None => forall|j: int|
                0 <= j < n && view.inspected.len() + j < view.limits.max_total_items
                    ==> !is_new_match(view.seen, #[trigger] items[j]),
        },
        !view.after_items(items, n).is_full() ==> view.after_items(items, n).inspected.len()
            == view.inspected.len() + n,
    decreases n,
{
    if n > 0 {
        first_new_match_is_picked(view, items, (n - 1) as nat);
        look_is_bounded(view, items, (n - 1) as nat);
        let before = view.after_items(items, (n - 1) as nat);
        assert(view.after_items(items, n) == before.after_item(items[n - 1], (n - 1) as usize));
        if before.is_full() {
            assert(view.inspected.len() + (n - 1) >= view.limits.max_total_items);
        }
    }
}

impl SyncView {
    /// The look after the first `n` of some sources have been dealt with: no source is fetched
    /// any more once as many items have been looked at as may be.
    pub open spec fn after_sources(self, sources: Seq<Seq<SyncItem>>, n: nat) -> SyncView
        decreases n,
    {
        if n == 0 {
            self
        } else {
            let before = self.after_sources(sources, (n - 1) as nat);
            if before.is_full() {
                before
            } else {
                before.after_source(sources[n - 1])
            }
        }
    }

    /// How many items stand before those of the source at `n`, as far as the limit for a source
    /// goes.
    pub open spec fn items_before(self, sources: Seq<Seq<SyncItem>>, n: nat) -> nat
        decreases n,
    {
        if n == 0 {
            0
        } else {
            self.items_before(sources, (n - 1) as nat) + self.taken(sources[n - 1])
        }
    }

    /// Whether a look gets to an item: both limits allow it.
    pub open spec fn reaches(self, sources: Seq<Seq<SyncItem>>, source: int, place: int) -> bool {
        &&& 0 <= source < sources.len()
        &&& 0 <= place < self.taken(sources[source])
        &&& self.items_before(sources, source as nat) + place < self.limits.max_total_items
    }
}

/// Whether what a look has picked of the first `n` sources is the first item that it gets to
/// that is new and that the rule picks.
pub open spec fn is_first_new_match(
    view: SyncView,
    sources: Seq<Seq<SyncItem>>,
    n: nat,
    selection: Option<(usize, usize)>,
) -> bool {
    match selection {
        Some((source, place)) => {
            &&& source < n
            &&& view.reaches(sources, source as int, place as int)
            &&& is_new_match(view.seen, sources[source as int][place as int])
            &&& forall|s: int, p: int|
                #![trigger sources[s][p]]
                view.reaches(sources, s, p) && (s < source || (s == source && p < place))
                    ==> !is_new_match(view.seen, sources[s][p])
        },
        None => forall|s: int, p: int|
            #![trigger sources[s][p]]
            view.reaches(sources, s, p) && s < n ==> !is_new_match(view.seen, sources[s][p]),
    }
}

/// A whole look picks the first item, in the order of the sources and of the items in each,
/// that is new and that the rule picks, among those that both limits let it get to; and it looks
/// at all of those.
pub proof fn whole_look_picks_the_first_new_match(
    limits: SyncLimits,
    seen: Seq<Seq<char>>,
    sources: Seq<Seq<SyncItem>>,
    n: nat,
)
    requires
        n <= sources.len() <= usize::MAX,
        forall|s: int| 0 <= s < sources.len() ==> (#[trigger] sources[s]).len() <= usize::MAX,
    ensures
        ({
            let start = SyncView::start(limits, seen);
            let end = start.after_sources(sources, n);
            let before = start.items_before(sources, n);
            &&& is_first_new_match(start, sources, n, end.selection)
            &&& end.inspected.len() == if before <= limits.max_total_items {
                before
            } else {
                limits.max_total_items as nat
            }
            &&& end.limits == limits
            &&& end.seen == seen
            &&& end.sources_fetched <= n
            &&& !end.is_full() ==> end.sources_fetched == n
        }),
    decreases n,
{
    if n > 0 {
        let start = SyncView::start(limits, seen);
        let m = (n - 1) as nat;
        whole_look_picks_the_first_new_match(limits, seen, sources, m);
        let before = start.after_sources(sources, m);
        let end = start.after_sources(sources, n);
        let items = sources[n - 1];
        let count = start.taken(items);
        if before.is_full() {
            assert forall|s: int, p: int|
                #![trigger sources[s][p]]
                start.reaches(sources, s, p) && s < n implies s < m by {
                if s == m {
                    assert(start.items_before(sources, m) >= limits.max_total_items);
                }
            }
        } else {
            let fetched = SyncView { sources_fetched: before.sources_fetched + 1, ..before };
            assert(end == fetched.after_items(items, count));
            look_is_bounded(fetched, items, count);
            first_new_match_is_picked(fetched, items, count);
            assert(before.inspected.len() == start.items_before(sources, m));
            if let Some((source, place)) = end.selection {
                if before.selection is None {
                    assert(source == m);
                    assert forall|s: int, p: int|
                        #![trigger sources[s][p]]
                        start.reaches(sources, s, p) && (s < source || (s == source && p < place))
                            implies !is_new_match(seen, sources[s][p]) by {
                        if s == m {
                            assert(sources[s][p] == items[p]);
                        }
                    }
                }
            } else {
                assert forall|s: int, p: int|
                    #![trigger sources[s][p]]
                    start.reaches(sources, s, p) && s < n implies !is_new_match(
                    seen,
                    sources[s][p],
                ) by {
                    if s == m {
                        assert(sources[s][p] == items[p]);
                    }
                }
            }
        }
    }
}

/// Between 1 and 64 hosts are allowed.
pub fn check_allowed_hosts(count: usize) -> (res: Result<(), String>)
    ensures
        res is Ok <==> 0 < count <= 64,
        res matches Err(reason) ==> reason@
            == "--allow-host must contain between 1 and 64 exact hosts"@,
{
    if count > 0 && count <= 64 {
        Ok(())
    } else {
        Err("--allow-host must contain between 1 and 64 exact hosts".to_string())
    }
}

/// A document to be looked at has at least one source, and no more than may be.
pub fn check_sources(count: usize, max_sources: usize) -> (res: Result<(), String>)
    ensures
        res is Ok <==> 0 < count <= max_sources,
        res matches Err(reason) ==> reason@ == if count == 0 {
            "OPML file must contain at least one feed"@
        } else {
            "OPML source count exceeds --max-sources"@
        },
{
    if count == 0 {
        return Err("OPML file must contain at least one feed".to_string());
    }
    if count > max_sources {
        return Err("OPML source count exceeds --max-sources".to_string());
    }
    Ok(())
}

/// The first of some feeds with the address of the one at `selected`.
pub open spec fn first_with_address(feeds: Seq<FlatFeed>, selected: int, n: int) -> int
    decreases feeds.len() - n,
{
    if n >= feeds.len() || feeds[n].xml_url@ == feeds[selected].xml_url@ {
        n
    } else {
        first_with_address(feeds, selected, n + 1)
    }
}

/// The feeds with the selected source in front: the first feed with its address and the
/// feed in front change places.
pub fn source_order(feeds: &Vec<FlatFeed>, selected: usize) -> (res: Vec<FlatFeed>)
    requires
        selected < feeds@.len(),
    ensures
        ({
            let views = document::flat_views(feeds@);
            let p = first_with_address(feeds@, selected as int, 0);
            &&& 0 <= p <= selected
            &&& document::flat_views(res@) == views.update(0, views[p]).update(p, views[0])
        }),
{
    let mut index: usize = 0;
    while !text::same(feeds[index].xml_url.as_str(), feeds[selected].xml_url.as_str())
        invariant
            selected < feeds@.len(),
            index <= selected,
            first_with_address(feeds@, selected as int, 0) == first_with_address(
                feeds@,
                selected as int,
                index as int,
            ),
        decreases selected - index,
    {
        index += 1;
    }
    let ghost views = document::flat_views(feeds@);
    let mut res: Vec<FlatFeed> = Vec::new();
    while res.len() < feeds.len()
        invariant
            index <= selected < feeds@.len(),
            views == document::flat_views(feeds@),
            res@.len() <= feeds@.len(),
            forall|i: int|
                0 <= i < res@.len() ==> (#[trigger] res@[i])@ == views.update(
                    0,
                    views[index as int],
                ).update(index as int, views[0])[i],
        decreases feeds@.len() - res@.len(),
    {
        let at: usize = res.len();
        let from: usize = if at == index {
            0
        } else if at == 0 {
            index
        } else {
            at
        };
        res.push(feeds[from].duplicate());
    }
    proof {
        assert(document::flat_views(res@) =~= views.update(0, views[index as int]).update(
            index as int,
            views[0],
        ));
    }
    res
}

/// The digests of the addresses of some sources.
pub fn source_hashes(feeds: &Vec<FlatFeed>) -> (res: Vec<String>)
    ensures
        text::views(res@) == feeds@.map_values(|f: FlatFeed| export::tag(f.xml_url@)),
{
    let mut res: Vec<String> = Vec::new();
    while res.len() < feeds.len()
        invariant
            res@.len() <= feeds@.len(),
            forall|i: int|
                0 <= i < res@.len() ==> (#[trigger] res@[i])@ == export::tag(feeds@[i].xml_url@),
        decreases feeds@.len() - res@.len(),
    {
        res.push(hash::sha256_tag(feeds[res.len()].xml_url.as_str().as_bytes()));
    }
    proof {
        assert(text::views(res@) =~= feeds@.map_values(|f: FlatFeed| export::tag(f.xml_url@)));
    }
    res
}

/// The place of the first picked one among the first `max_items` items, or of the first
/// item where none of those is picked.
pub fn select_item(matched: &Vec<bool>, max_items: usize) -> (res: usize)
    requires
        matched@.len() > 0,
    ensures
        res < matched@.len(),
        (exists|i: int| 0 <= i < matched@.len() && i < max_items && #[trigger] matched@[i])
            ==> res < max_items && matched@[res as int],
        (forall|i: int| 0 <= i < matched@.len() && i < max_items ==> !(#[trigger] matched@[i]))
            ==> res == 0,
        forall|i: int| 0 <= i < res ==> !(#[trigger] matched@[i]),
{
    let mut i: usize = 0;
    while i < matched.len() && i < max_items
        invariant
            i <= matched@.len(),
            forall|j: int| 0 <= j < i ==> !(#[trigger] matched@[j]),
        decreases matched@.len() - i,
    {
        if matched[i] {
            return i;
        }
        i += 1;
    }
    0
}

/// Between 1 and 100 items are looked at.
pub fn check_max_items(max_items: usize) -> (res: Result<(), String>)
    ensures
        res is Ok <==> 1 <= max_items <= 100,
        res matches Err(reason) ==> reason@ == "--max-items must be between 1 and 100"@,
{
    if 1 <= max_items && max_items <= 100 {
        Ok(())
    } else {
        Err("--max-items must be between 1 and 100".to_string())
    }
}

/// A file is read where it has at most `max_bytes` bytes.
pub fn check_size(size: u64, max_bytes: usize, label: &str) -> (res: Result<(), String>)
    ensures
        res is Ok <==> size <= max_bytes,
        res matches Err(reason) ==> reason@ == label@ + " exceeds the "@ + text::decimal(
            max_bytes as int,
        ) + "-byte limit"@,
{
    if size as u128 <= max_bytes as u128 {
        Ok(())
    } else {
        let mut reason: String = label.to_string();
        reason.append(" exceeds the ");
        reason.append(text::unsigned_to_text(max_bytes as u128).as_str());
        reason.append("-byte limit");
        Err(reason)
    }
}

/// The name of the file that is written before it takes the place of `file_name`: hidden,
/// in the same directory, and its own for every write.
pub fn temporary_name(file_name: &str, id: Uuid) -> (res: String)
    ensures
        res@ == "."@ + file_name@ + "."@ + ids::hyphenated(id) + ".tmp"@,
{
    let mut res: String = ".".to_string();
    res.append(file_name);
    res.append(".");
    res.append(ids::uuid_text(id).as_str());
    res.append(".tmp");
    res
}

/// A look notes the digest of every item that it looks at, in order, and counts those among them
/// that were known before.
pub proof fn look_notes_what_it_saw(view: SyncView, items: Seq<SyncItem>, n: nat)
    requires
        n <= items.len(),
        view.inspected.len() <= view.limits.max_total_items,
        view.previously_seen == view.inspected.filter(|d: Seq<char>| view.seen.contains(d)).len(),
    ensures
        ({
            let after = view.after_items(items, n);
            let looked = after.inspected.len() - view.inspected.len();
            &&& 0 <= looked <= n
            &&& looked < n ==> after.inspected.len() == view.limits.max_total_items
            &&& after.inspected == view.inspected + Seq::new(
                looked as nat,
                |i: int| items[i].digest@,
            )
            &&& after.previously_seen == after.inspected.filter(
                |d: Seq<char>| view.seen.contains(d),
            ).len()
        }),
    decreases n,
{
    reveal(Seq::filter);
    if n > 0 {
        let m = (n - 1) as nat;
        look_notes_what_it_saw(view, items, m);
        look_is_bounded(view, items, m);
        let before = view.after_items(items, m);
        let after = view.after_items(items, n);
        assert(after == before.after_item(items[n - 1], (n - 1) as usize));
        if !before.is_full() {
            assert(before.inspected.len() - view.inspected.len() == m);
            assert(after.inspected.drop_last() =~= before.inspected);
            assert(after.inspected.last() == items[n - 1].digest@);
        }
        let looked = (after.inspected.len() - view.inspected.len()) as nat;
        assert(after.inspected =~= view.inspected + Seq::new(looked, |i: int| items[i].digest@));
    } else {
        assert(view.inspected =~= view.inspected + Seq::new(0, |i: int| items[i].digest@));
    }
}

/// Sources are fetched one after the other as long as there is one and fewer items have been
/// looked at than may be. The report tells how far that went, and is ready if and only if there
/// is an export.
pub proof fn sources_are_fetched_in_order(
    look: SyncProgress,
    count: usize,
    next: Option<usize>,
    imported: usize,
    export_id: Option<String>,
    format: &str,
    res: SyncCuratedSummary,
)
    requires
        look@.sources_fetched <= usize::MAX,
        call_ensures(SyncProgress::next_source, (&look, count), next),
        call_ensures(SyncProgress::summary, (&look, imported, export_id, format), res),
    ensures
        next is Some <==> look@.sources_fetched < count && look@.inspected.len()
            < look@.limits.max_total_items,
        next matches Some(source) ==> source == look@.sources_fetched,
        res.output_written <==> export_id is Some,
        res.output_written ==> res.status@ == "ready"@,
        !res.output_written ==> res.status@ == "empty"@,
        res.export_id == export_id,
        res.sources_imported == imported,
        res.sources_fetched == look@.sources_fetched,
        res.items_inspected == look@.inspected.len(),
        res.previously_seen_items == look@.previously_seen,
        res.state_format@ == format@,
{
}

/// The first feed with the selected address comes to the front and changes places with the one
/// that was there, and every other feed stays where it is.
pub proof fn selected_source_comes_first(
    feeds: Vec<FlatFeed>,
    selected: usize,
    res: Vec<FlatFeed>,
) -> (p: int)
    requires
        selected < feeds@.len(),
        call_ensures(source_order, (&feeds, selected), res),
    ensures
        res@.len() == feeds@.len(),
        0 <= p <= selected,
        res@[0]@ == feeds@[p]@,
        res@[p]@ == feeds@[0]@,
        res@[0].xml_url@ == feeds@[selected as int].xml_url@,
        forall|i: int|
            0 <= i < p ==> (#[trigger] feeds@[i]).xml_url@ != feeds@[selected as int].xml_url@,
        forall|i: int| 0 < i < feeds@.len() && i != p ==> (#[trigger] res@[i])@ == feeds@[i]@,
{
    let p = first_with_address(feeds@, selected as int, 0);
    lemma_first_with_address(feeds@, selected as int, 0);
    let views = document::flat_views(feeds@);
    let ordered = document::flat_views(res@);
    assert(ordered.len() == res@.len() && views.len() == feeds@.len());
    assert(ordered[0] == res@[0]@ && ordered[p] == res@[p]@);
    assert(views[p] == feeds@[p]@ && views[0] == feeds@[0]@);
    assert(res@[0]@.xml_url == feeds@[p]@.xml_url);
    assert forall|i: int| 0 < i < feeds@.len() && i != p implies (#[trigger] res@[i])@
        == feeds@[i]@ by {
        assert(ordered[i] == res@[i]@ && views[i] == feeds@[i]@);
    }
    p
}

proof fn lemma_first_with_address(feeds: Seq<FlatFeed>, selected: int, n: int)
    requires
        0 <= n <= selected < feeds.len(),
    ensures
        n <= first_with_address(feeds, selected, n) <= selected,
        feeds[first_with_address(feeds, selected, n)].xml_url@ == feeds[selected].xml_url@,
        forall|i: int|
            n <= i < first_with_address(feeds, selected, n) ==> (#[trigger] feeds[i]).xml_url@
                != feeds[selected].xml_url@,
    decreases selected - n,
{
    if feeds[n].xml_url@ != feeds[selected].xml_url@ {
        lemma_first_with_address(feeds, selected, n + 1);
    }
}

/// A source is known by the digest of its address and an item by that of its guid, and both
/// stand in the order of what they stand for.
pub proof fn sources_and_items_are_known_by_their_digests(
    feeds: Vec<FlatFeed>,
    hashes: Vec<String>,
    guid: &str,
    matched: bool,
    item: SyncItem,
)
    requires
        call_ensures(source_hashes, (&feeds,), hashes),
        call_ensures(SyncItem::new, (guid, matched), item),
    ensures
        hashes@.len() == feeds@.len(),
        forall|i: int|
            0 <= i < feeds@.len() ==> (#[trigger] hashes@[i])@ == export::tag(
                feeds@[i].xml_url@,
            ),
        item.digest@ == export::tag(guid@),
        item.matched <==> matched,
{
    assert(text::views(hashes@).len() == hashes@.len());
    assert forall|i: int| 0 <= i < feeds@.len() implies (#[trigger] hashes@[i])@ == export::tag(
        feeds@[i].xml_url@,
    ) by {
        assert(text::views(hashes@)[i] == hashes@[i]@);
    }
}

/// From 1 to 64 hosts, from 1 to 100 items, and from 1 to as many sources as may be are
/// accepted, and a file of no more bytes than may be.
pub proof fn looks_have_bounds(
    hosts: usize,
    host_check: Result<(), String>,
    items: usize,
    item_check: Result<(), String>,
    count: usize,
    max_sources: usize,
    source_check: Result<(), String>,
    size: u64,
    max_bytes: usize,
    label: &str,
    size_check: Result<(), String>,
)
    requires
        call_ensures(check_allowed_hosts, (hosts,), host_check),
        call_ensures(check_max_items, (items,), item_check),
        call_ensures(check_sources, (count, max_sources), source_check),
        call_ensures(check_size, (size, max_bytes, label), size_check),
    ensures
        host_check is Ok <==> 1 <= hosts < 65,
        item_check is Ok <==> 1 <= items < 101,
        source_check is Ok <==> 1 <= count <= max_sources,
        size_check is Err <==> size > max_bytes,
{
}

/// The first picked item among those that are looked at is taken, the first of all where none is
/// picked, and a file is written under a name of its own beside the one that it replaces.
pub proof fn first_picked_item_is_taken(
    matched: Vec<bool>,
    max_items: usize,
    res: usize,
    i: int,
    file_name: &str,
    id: Uuid,
    name: String,
    look: SyncProgress,
    selection: Option<(usize, usize)>,
    hashes: Vec<String>,
)
    requires
        matched@.len() > 0,
        call_ensures(select_item, (&matched, max_items), res),
        call_ensures(temporary_name, (file_name, id), name),
        call_ensures(SyncProgress::selection, (&look,), selection),
        call_ensures(SyncProgress::into_inspected_hashes, (look,), hashes),
    ensures
        res < matched@.len(),
        0 <= i < matched@.len() && i < max_items && matched@[i] ==> res <= i && matched@[res as int],
        !matched@[res as int] || res >= max_items ==> res == 0,
        0 <= i < res ==> !matched@[i],
        name@ == "."@ + file_name@ + "."@ + ids::hyphenated(id) + ".tmp"@,
        selection == look@.selection,
        hashes@.len() == look@.inspected.len(),
        0 <= i < hashes@.len() ==> hashes@[i]@ == look@.inspected[i],
{
    assert(text::views(hashes@).len() == hashes@.len());
    if 0 <= i < hashes@.len() {
        assert(text::views(hashes@)[i] == hashes@[i]@);
    }
    if forall|k: int| 0 <= k < matched@.len() && k < max_items ==> !(#[trigger] matched@[k]) {
    } else {
        let k = choose|k: int| 0 <= k < matched@.len() && k < max_items && #[trigger] matched@[k];
        assert(matched@[k]);
    }
}

/// A file that is too large is told by its name and by how much it may have, and a look without
/// a source from one with too many.
pub proof fn refused_input_is_named(
    size: u64,
    max_bytes: usize,
    label: &str,
    res: Result<(), String>,
    count: usize,
    max_sources: usize,
    sources: Result<(), String>,
)
    requires
        call_ensures(check_size, (size, max_bytes, label), res),
        call_ensures(check_sources, (count, max_sources), sources),
    ensures
        res matches Err(reason) ==> reason@ == label@ + " exceeds the "@ + text::decimal(
            max_bytes as int,
        ) + "-byte limit"@,
        sources is Err && count == 0 ==> sources->Err_0@
            == "OPML file must contain at least one feed"@,
        sources is Err && count > 0 ==> sources->Err_0@
            == "OPML source count exceeds --max-sources"@,
{
}

/// A source that has delivered is counted, its items are looked at in order as far as both limits
/// go, and the first new one that the rule picks is picked where none was before.
pub proof fn source_is_looked_at_in_order(look: &mut SyncProgress, items: Vec<SyncItem>, i: int)
    requires
        old(look).wf(),
        old(look)@.selection is None,
        old(look)@.sources_fetched < usize::MAX,
        items@.len() <= usize::MAX,
        call_ensures(SyncProgress::take_source, (look, &items), ()),
        0 <= i < items@.len(),
        i < old(look)@.limits.max_items_per_source,
        old(look)@.inspected.len() + i < old(look)@.limits.max_total_items,
    ensures
        final(look)@.sources_fetched == old(look)@.sources_fetched + 1,
        final(look)@.inspected.len() > old(look)@.inspected.len() + i,
        items@[i].matched && !old(look)@.seen.contains(items@[i].digest@) && (forall|j: int|
            0 <= j < i ==> !((#[trigger] items@[j]).matched && !old(look)@.seen.contains(
                items@[j].digest@,
            ))) ==> final(look)@.selection == Some((old(look)@.sources_fetched as usize, i as usize)),
{
    old(look).stays_within_limits();
    let before = SyncView { sources_fetched: old(look)@.sources_fetched + 1, ..old(look)@ };
    let n = before.taken(items@);
    look_is_bounded(before, items@, n);
    first_new_match_is_picked(before, items@, n);
    let after = before.after_items(items@, n);
    assert(final(look)@ == after);
    if items@[i].matched && !old(look)@.seen.contains(items@[i].digest@) && (forall|j: int|
        0 <= j < i ==> !((#[trigger] items@[j]).matched && !old(look)@.seen.contains(
            items@[j].digest@,
        ))) {
        assert(is_new_match(before.seen, items@[i]));
        if let Some((source, place)) = after.selection {
            if place < i {
                assert(is_new_match(before.seen, items@[place as int]));
            }
        }
    }
}

/// A look with too few or too many hosts or items is told how many there may be.
pub proof fn refused_bounds_are_named(
    hosts: usize,
    host_check: Result<(), String>,
    items: usize,
    item_check: Result<(), String>,
)
    requires
        call_ensures(check_allowed_hosts, (hosts,), host_check),
        call_ensures(check_max_items, (items,), item_check),
    ensures
        host_check matches Err(reason) ==> reason@
            == "--allow-host must contain between 1 and 64 exact hosts"@,
        item_check matches Err(reason) ==> reason@ == "--max-items must be between 1 and 100"@,
{
}

} // verus!
