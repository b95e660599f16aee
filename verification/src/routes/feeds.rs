//! Feeds of a user.

use vstd::prelude::*;
use vstd::string::*;

use crate::error;
use crate::error::{ApiError, ApiResult, ErrorKind};
use crate::ids;
use crate::ids::Uuid;
use crate::pattern;
use crate::routes::common;
use crate::text;
use crate::time;
use crate::time::Timestamp;

verus! {

/// A request for a new feed.
#[derive(Debug)]
pub struct CreateFeedRequest {
    pub url: String,
    pub folder_id: Option<Uuid>,
    pub title: Option<String>,
}

/// Whether a filter shows some categories or hides them.
#[derive(Clone, Copy, Debug, PartialEq, Eq, Structural)]
pub enum CategoryFilterMode {
    Include,
    Exclude,
}

/// Which categories of a feed are shown.
#[derive(Debug)]
pub struct CategoryFilter {
    pub mode: CategoryFilterMode,
    pub categories: Vec<String>,
}

/// A request to change a feed.
#[derive(Debug)]
pub struct UpdateFeedRequest {
    pub title: Option<String>,
    pub folder_id: Option<Uuid>,
    pub priority: Option<String>,
    pub category_filter: Option<CategoryFilter>,
}

/// A request for the feeds of a user.
#[derive(Debug)]
pub struct ListFeedsQuery {
    pub folder_id: Option<Uuid>,
    pub priority: Option<String>,
    pub cursor: Option<String>,
    pub limit: Option<i64>,
}

/// What goes with a list of feeds.
#[derive(Debug)]
pub struct ListMeta {
    pub total: i64,
    pub cursor: Option<String>,
    pub has_more: bool,
}

/// An item that a feed has delivered.
#[derive(Debug)]
pub struct FeedItem {
    pub guid: String,
    pub url: Option<String>,
    pub title: String,
    pub content: Option<String>,
    pub summary: Option<String>,
    pub author: Option<String>,
    pub published_at: Option<Timestamp>,
    pub categories: Vec<String>,
}

/// What a feed says of itself.
#[derive(Debug)]
pub struct FeedMeta {
    pub title: String,
    pub description: Option<String>,
    pub site_url: Option<String>,
    pub feed_type: String,
}

/// What is known of an item.
#[verifier::ext_equal]
pub struct FeedItemView {
    pub guid: Seq<char>,
    pub url: Option<Seq<char>>,
    pub title: Seq<char>,
    pub content: Option<Seq<char>>,
    pub summary: Option<Seq<char>>,
    pub author: Option<Seq<char>>,
    pub published_at: Option<Timestamp>,
    pub categories: Seq<Seq<char>>,
}

impl View for FeedItem {
    type V = FeedItemView;

    open spec fn view(&self) -> FeedItemView {
        FeedItemView {
            guid: self.guid@,
            url: text::view_opt(self.url),
            title: self.title@,
            content: text::view_opt(self.content),
            summary: text::view_opt(self.summary),
            author: text::view_opt(self.author),
            published_at: self.published_at,
            categories: text::views(self.categories@),
        }
    }
}

impl FeedItem {
    /// A copy of the item.
    pub fn duplicate(&self) -> (res: FeedItem)
        ensures
            res@ == self@,
    {
        FeedItem {
            guid: self.guid.clone(),
            url: text::clone_opt(&self.url),
            title: self.title.clone(),
            content: text::clone_opt(&self.content),
            summary: text::clone_opt(&self.summary),
            author: text::clone_opt(&self.author),
            published_at: self.published_at,
            categories: text::clone_all(&self.categories),
        }
    }
}

impl CreateFeedRequest {
    /// The address has between 1 and 2048 characters.
    pub fn has_valid_url(&self) -> (res: bool)
        ensures
            res == common::within(self.url@, 1, 2048),
    {
        common::is_within(self.url.as_str(), 1, 2048)
    }
}

/// Whether an address names HTTP or HTTPS.
pub open spec fn names_http(url: Seq<char>) -> bool {
    text::begins_with(url, "http://"@) || text::begins_with(url, "https://"@)
}

/// An address that was typed in: without the white space around it, and with `https://`
/// before it unless it names HTTP or HTTPS itself.
pub open spec fn normalized(input: Seq<char>) -> Seq<char> {
    let trimmed = text::trimmed(input);
    if names_http(trimmed) {
        trimmed
    } else {
        "https://"@ + trimmed
    }
}

/// The address for what was typed in.
pub fn normalize_url(input: &str) -> (res: String)
    ensures
        res@ == normalized(input@),
{
    let trimmed: String = text::trim(input);
    if text::starts_with(trimmed.as_str(), "http://") || text::starts_with(
        trimmed.as_str(),
        "https://",
    ) {
        return trimmed;
    }
    common::prefixed("https://", trimmed.as_str())
}

/// The address that results always names HTTP or HTTPS.
pub proof fn normalized_address_names_its_scheme(input: Seq<char>)
    ensures
        names_http(normalized(input)),
{
    let trimmed = text::trimmed(input);
    if !names_http(trimmed) {
        assert(("https://"@ + trimmed).take("https://"@.len() as int) =~= "https://"@);
    }
}

/// The address that results has no white space at either end, and normalizing it again changes
/// nothing.
pub proof fn normalizing_again_changes_nothing(input: Seq<char>)
    ensures
        normalized(input).len() > 0,
        !text::white_space(normalized(input)[0]),
        !text::white_space(normalized(input).last()),
        normalized(normalized(input)) == normalized(input),
{
    let trimmed = text::trimmed(input);
    let address = normalized(input);
    text::lemma_trimmed_start(input);
    text::lemma_trimmed_end(text::trimmed_start(input));
    normalized_address_names_its_scheme(input);
    reveal_strlit("http://");
    reveal_strlit("https://");
    if !names_http(trimmed) && trimmed.len() > 0 {
        assert(address.last() == trimmed.last());
    }
    assert(text::trimmed_start(address) == address);
    assert(text::trimmed_end(address) == address);
}

/// How a page points to its feed: the four forms in which the type and the address of a link
/// can stand.
pub open spec fn link_pattern(i: int) -> Seq<char> {
    if i == 0 {
        "<link[^>]+type=\"application/rss\\+xml\"[^>]+href=\"([^\"]+)\""@
    } else if i == 1 {
        "<link[^>]+href=\"([^\"]+)\"[^>]+type=\"application/rss\\+xml\""@
    } else if i == 2 {
        "<link[^>]+type=\"application/atom\\+xml\"[^>]+href=\"([^\"]+)\""@
    } else {
        "<link[^>]+href=\"([^\"]+)\"[^>]+type=\"application/atom\\+xml\""@
    }
}

/// The first link to a feed in a page, for the forms from `i` on.
pub open spec fn first_link(html: Seq<char>, i: int) -> Option<Seq<char>>
    decreases 4 - i,
{
    if i >= 4 || i < 0 {
        None
    } else if pattern::compiled(link_pattern(i), false) is Ok && pattern::first_group(
        link_pattern(i),
        false,
        html,
    ) is Some {
        pattern::first_group(link_pattern(i), false, html)
    } else {
        first_link(html, i + 1)
    }
}

/// The address of a page up to its query or fragment.
pub open spec fn path_part(url: Seq<char>) -> Seq<char> {
    text::split(text::split(url, '#')[0], '?')[0]
}

/// The scheme and the host of an address.
pub open spec fn site_of(url: Seq<char>) -> Seq<char> {
    text::joined(text::first_parts(text::split(path_part(url), '/'), 3), "/"@)
}

/// What the links of a page are relative to, without the slash at its end: the page itself
/// where its address has no path, and else what stands before the last slash of the path.
pub open spec fn directory_of(url: Seq<char>) -> Seq<char> {
    let page = path_part(url);
    if text::split(page, '/').len() <= 3 {
        page
    } else {
        match text::before_last(page, '/') {
            Some(base) => base,
            None => page,
        }
    }
}

/// The address that a link in a page stands for.
pub open spec fn resolved(page_url: Seq<char>, href: Seq<char>) -> Seq<char> {
    if names_http(href) {
        href
    } else if text::begins_with(href, "//"@) {
        "https:"@ + href
    } else if text::begins_with(href, "/"@) {
        site_of(page_url) + href
    } else {
        directory_of(page_url) + "/"@ + href
    }
}

fn page_path(url: &str) -> (res: String)
    ensures
        res@ == path_part(url@),
{
    let without_fragment: Vec<String> = text::split_on(url, '#');
    proof {
        assert(text::views(without_fragment@)[0] == without_fragment@[0]@);
    }
    let mut pieces: Vec<String> = text::split_on(without_fragment[0].as_str(), '?');
    proof {
        assert(text::views(pieces@)[0] == pieces@[0]@);
    }
    pieces.swap_remove(0)
}

/// The address that a link in a page stands for: one that names HTTP or HTTPS stands for
/// itself, one from `//` on lacks its scheme, one from `/` on lacks its host, and any other
/// one is relative to the page.
pub fn resolve_href(page_url: &str, href: &str) -> (res: String)
    ensures
        res@ == resolved(page_url@, href@),
{
    if text::starts_with(href, "http://") || text::starts_with(href, "https://") {
        return href.to_string();
    }
    if text::starts_with(href, "//") {
        return common::prefixed("https:", href);
    }
    let page: String = page_path(page_url);
    if text::starts_with(href, "/") {
        let parts: Vec<String> = text::first_pieces(page.as_str(), '/', 3);
        let base: String = text::join(&parts, "/");
        return common::prefixed(base.as_str(), href);
    }
    let pieces: Vec<String> = text::split_on(page.as_str(), '/');
    proof {
        assert(text::views(pieces@).len() == pieces@.len());
    }
    let mut res: String = if pieces.len() <= 3 {
        page
    } else {
        match text::until_last(page.as_str(), '/') {
            Some(base) => base,
            None => page,
        }
    };
    res.append("/");
    res.append(href);
    res
}

/// A link that names no scheme and no host stays on the site of its page.
pub proof fn relative_link_stays_on_the_site(page_url: Seq<char>, href: Seq<char>)
    requires
        !names_http(href),
        !text::begins_with(href, "//"@),
    ensures
        text::begins_with(resolved(page_url, href), site_of(page_url) + "/"@),
{
    let page = path_part(page_url);
    let parts = text::split(page, '/');
    let site = site_of(page_url);
    let target = resolved(page_url, href);
    let front = site + "/"@;
    reveal_strlit("/");
    assert("/"@ =~= seq!['/']);
    if text::begins_with(href, "/"@) {
        assert(href.take(1)[0] == '/');
        assert(target.take(front.len() as int) =~= front);
    } else {
        text::lemma_joined_split(page, '/');
        let base = directory_of(page_url);
        if parts.len() > 3 {
            text::lemma_before_last(page, '/');
            text::lemma_joined_split(base, '/');
            let kept = text::split(base, '/');
            assert(kept == parts.drop_last());
            assert(kept.take(3) =~= parts.take(3));
            assert(text::first_parts(parts, 3) == parts.take(3));
            if kept.len() == 3 {
                assert(kept.take(3) =~= kept);
                assert(base == site);
            } else {
                text::lemma_joined_prefix(kept, 3, "/"@);
                assert(base.take(front.len() as int) == front);
                assert(target.take(front.len() as int) =~= base.take(front.len() as int));
            }
        } else {
            assert(base == site);
        }
        if base == site {
            assert(target.take(front.len() as int) =~= front);
        }
    }
}

fn link_source(i: usize) -> (res: &'static str)
    ensures
        res@ == link_pattern(i as int),
{
    if i == 0 {
        "<link[^>]+type=\"application/rss\\+xml\"[^>]+href=\"([^\"]+)\""
    } else if i == 1 {
        "<link[^>]+href=\"([^\"]+)\"[^>]+type=\"application/rss\\+xml\""
    } else if i == 2 {
        "<link[^>]+type=\"application/atom\\+xml\"[^>]+href=\"([^\"]+)\""
    } else {
        "<link[^>]+href=\"([^\"]+)\"[^>]+type=\"application/atom\\+xml\""
    }
}

/// The address of the feed that a page points to, where it points to one.
pub fn discover_in_page(page_url: &str, html: &str) -> (res: Option<String>)
    ensures
        text::view_opt(res) == (match first_link(html@, 0) {
            Some(href) => Some(resolved(page_url@, href)),
            None => None,
        }),
{
    let mut i: usize = 0;
    while i < 4
        invariant
            i <= 4,
            first_link(html@, 0) == first_link(html@, i as int),
        decreases 4 - i,
    {
        if let Ok(compiled) = pattern::compile(link_source(i), false) {
            if let Some(href) = pattern::capture(&compiled, html) {
                return Some(resolve_href(page_url, href.as_str()));
            }
        }
        i += 1;
    }
    None
}

/// The paths under which feeds are commonly found, in the order in which they are tried.
pub open spec fn common_path(i: int) -> Seq<char> {
    if i == 0 {
        "/feed"@
    } else if i == 1 {
        "/feed.xml"@
    } else if i == 2 {
        "/rss"@
    } else if i == 3 {
        "/rss.xml"@
    } else if i == 4 {
        "/atom.xml"@
    } else if i == 5 {
        "/index.xml"@
    } else {
        "/feeds/posts/default"@
    }
}

/// What is to be done to find the feed of a page that points to none.
#[derive(Debug)]
pub enum ProbeStep {
    /// Ask for the headers of this address.
    Try(String),
    /// This is the address of the feed.
    Found(String),
    /// There is no feed.
    GiveUp(String),
}

/// What came of asking for the headers of an address, where there was an answer.
#[derive(Debug)]
pub struct ProbeResponse {
    pub success: bool,
    pub content_type: String,
}

/// The search for the feed of a page under common paths.
#[derive(Debug)]
pub struct FeedProbe {
    page_url: String,
    at: usize,
    found: bool,
}

/// What is known of a search: the page, how many paths have failed, and whether the one at
/// hand is that of a feed.
#[verifier::ext_equal]
pub struct ProbeView {
    pub page_url: Seq<char>,
    pub at: nat,
    pub found: bool,
}

impl View for FeedProbe {
    type V = ProbeView;

    closed spec fn view(&self) -> ProbeView {
        ProbeView { page_url: self.page_url@, at: self.at as nat, found: self.found }
    }
}

/// Whether an answer is that of a feed: it is a success, and its type names XML, RSS or Atom.
pub open spec fn is_feed_response(response: Option<ProbeResponse>) -> bool {
    match response {
        Some(r) => r.success && (text::occurs_in("xml"@, r.content_type@) || text::occurs_in(
            "rss"@,
            r.content_type@,
        ) || text::occurs_in("atom"@, r.content_type@)),
        None => false,
    }
}

impl ProbeView {
    /// The address of the path at hand.
    pub open spec fn candidate(self) -> Seq<char> {
        text::without_trailing(self.page_url, '/') + common_path(self.at as int)
    }
}

fn path_at(i: usize) -> (res: &'static str)
    ensures
        res@ == common_path(i as int),
{
    if i == 0 {
        "/feed"
    } else if i == 1 {
        "/feed.xml"
    } else if i == 2 {
        "/rss"
    } else if i == 3 {
        "/rss.xml"
    } else if i == 4 {
        "/atom.xml"
    } else if i == 5 {
        "/index.xml"
    } else {
        "/feeds/posts/default"
    }
}

impl FeedProbe {
    /// At most all paths have failed, and not all of them where there is a feed.
    pub closed spec fn wf(self) -> bool {
        self.at <= 7 && (self.found ==> self.at < 7)
    }

    /// A search that has tried nothing yet.
    pub fn new(page_url: &str) -> (res: Self)
        ensures
            res.wf(),
            res@ == (ProbeView { page_url: page_url@, at: 0, found: false }),
    {
        FeedProbe { page_url: page_url.to_string(), at: 0, found: false }
    }

    /// What is to be done next.
    pub fn next_step(&self) -> (res: ProbeStep)
        requires
            self.wf(),
        ensures
            if self@.at >= 7 {
                res matches ProbeStep::GiveUp(reason) && reason@
                    == "No RSS/Atom feed found on this page"@
            } else if self@.found {
                res matches ProbeStep::Found(url) && url@ == self@.candidate()
            } else {
                res matches ProbeStep::Try(url) && url@ == self@.candidate()
            },
    {
        if self.at >= 7 {
            return ProbeStep::GiveUp("No RSS/Atom feed found on this page".to_string());
        }
        let mut url: String = text::strip_trailing(self.page_url.as_str(), '/');
        url.append(path_at(self.at));
        if self.found {
            ProbeStep::Found(url)
        } else {
            ProbeStep::Try(url)
        }
    }

    /// Takes in what came of the address that was tried: the search ends where it is that of
    /// a feed, and goes on with the next path where it is not.
    pub fn handle(&mut self, response: &Option<ProbeResponse>)
        requires
            old(self).wf(),
            old(self)@.at < 7,
            !old(self)@.found,
        ensures
            final(self).wf(),
            final(self)@ == if is_feed_response(*response) {
                ProbeView { found: true, ..old(self)@ }
            } else {
                ProbeView { at: old(self)@.at + 1, ..old(self)@ }
            },
    {
        let accepted: bool = match response {
            Some(r) => r.success && (text::contains(r.content_type.as_str(), "xml")
                || text::contains(r.content_type.as_str(), "rss") || text::contains(
                r.content_type.as_str(),
                "atom",
            )),
            None => false,
        };
        if accepted {
            self.found = true;
        } else {
            self.at = self.at + 1;
        }
        proof {
            assert(self@ =~= if is_feed_response(*response) {
                ProbeView { found: true, ..old(self)@ }
            } else {
                ProbeView { at: old(self)@.at + 1, ..old(self)@ }
            });
        }
    }
}

/// The host in an address.
pub open spec fn host_of(site: Seq<char>) -> Seq<char> {
    text::split(
        text::without_leading(text::without_leading(site, "https://"@), "http://"@),
        '/',
    )[0]
}

/// The address of the icon of a site.
pub fn generate_icon_url(site_url: Option<&String>) -> (res: Option<String>)
    ensures
        text::view_opt(res) == (match site_url {
            Some(site) => Some(
                "https://www.google.com/s2/favicons?domain="@ + host_of(site@) + "&sz=64"@,
            ),
            None => None,
        }),
{
    match site_url {
        Some(site) => {
            let bare: String = text::strip_leading(site.as_str(), "https://");
            let bare: String = text::strip_leading(bare.as_str(), "http://");
            let parts: Vec<String> = text::split_on(bare.as_str(), '/');
            let mut res: String = "https://www.google.com/s2/favicons?domain=".to_string();
            proof {
                assert(text::views(parts@)[0] == parts@[0]@);
            }
            res.append(parts[0].as_str());
            res.append("&sz=64");
            Some(res)
        },
        None => None,
    }
}

/// The days that count as the last twelve months.
pub const WINDOW_DAYS: u32 = 365;

/// Whether an item was published in the last twelve months.
pub open spec fn in_window(item: FeedItem, now: Timestamp) -> bool {
    match item.published_at {
        Some(at) => time::is_earlier(time::days_before(now, WINDOW_DAYS as int), at),
        None => false,
    }
}

/// Whether an item is imported: it was published in the last twelve months, or nobody knows
/// when.
pub open spec fn is_kept(item: FeedItem, now: Timestamp) -> bool {
    item.published_at is None || in_window(item, now)
}

/// The time by which an item is ordered. One without a time counts as published now.
pub open spec fn order_time(item: FeedItem, now: Timestamp) -> Timestamp {
    match item.published_at {
        Some(at) => at,
        None => now,
    }
}

/// Whether the item at `i` comes before the one at `j`: it is newer, or as new and delivered
/// earlier.
pub open spec fn comes_before(items: Seq<FeedItem>, now: Timestamp, i: int, j: int) -> bool {
    let a = order_time(items[i], now);
    let b = order_time(items[j], now);
    time::is_earlier(b, a) || (!time::is_earlier(a, b) && i < j)
}

/// Whether `order` names the imported ones among the first `n` items, each once, newest
/// first.
pub open spec fn is_import_order(
    order: Seq<usize>,
    items: Seq<FeedItem>,
    n: nat,
    now: Timestamp,
) -> bool {
    &&& forall|k: int|
        0 <= k < order.len() ==> (#[trigger] order[k]) < n && is_kept(
            items[order[k] as int],
            now,
        )
    &&& forall|i: int|
        0 <= i < n && is_kept(#[trigger] items[i], now) ==> order.contains(i as usize)
    &&& forall|a: int, b: int|
        0 <= a < b < order.len() ==> comes_before(
            items,
            now,
            (#[trigger] order[a]) as int,
            (#[trigger] order[b]) as int,
        )
}

/// The first twenty of some items.
pub open spec fn at_most_twenty(n: nat) -> nat {
    if n <= 20 {
        n
    } else {
        20
    }
}

/// Whether `kept` holds what is imported of some items: the twenty newest of those published
/// in the last twelve months or without a time, newest first.
pub open spec fn is_initial_import(
    kept: Seq<FeedItem>,
    items: Seq<FeedItem>,
    order: Seq<usize>,
    now: Timestamp,
) -> bool {
    &&& is_import_order(order, items, items.len(), now)
    &&& kept.len() == at_most_twenty(order.len())
    &&& forall|k: int|
        0 <= k < kept.len() ==> (#[trigger] kept[k])@ == items[order[k] as int]@
}

fn insert_by_time(
    order: &mut Vec<usize>,
    items: &Vec<FeedItem>,
    i: usize,
    now: Timestamp,
)
    requires
        i < items@.len(),
        is_kept(items@[i as int], now),
        is_import_order(old(order)@, items@, i as nat, now),
    ensures
        is_import_order(final(order)@, items@, (i + 1) as nat, now),
{
    let ghost before = order@;
    let at: Timestamp = match items[i].published_at {
        Some(at) => at,
        None => now,
    };
    let mut p: usize = 0;
    while p < order.len()
        invariant_except_break
            forall|k: int|
                0 <= k < p ==> !time::is_earlier(
                    order_time(items@[(#[trigger] order@[k]) as int], now),
                    at,
                ),
        invariant
            p <= order@.len(),
            order@ == before,
            i < items@.len(),
            at == order_time(items@[i as int], now),
            is_import_order(before, items@, i as nat, now),
        ensures
            forall|k: int|
                0 <= k < p ==> !time::is_earlier(
                    order_time(items@[(#[trigger] order@[k]) as int], now),
                    at,
                ),
            p < order@.len() ==> time::is_earlier(
                order_time(items@[order@[p as int] as int], now),
                at,
            ),
        decreases order@.len() - p,
    {
        let other: usize = order[p];
        let other_at: Timestamp = match items[other].published_at {
            Some(at) => at,
            None => now,
        };
        if time::earlier(other_at, at) {
            break;
        }
        p += 1;
    }
    order.insert(p, i);
    proof {
        let after = order@;
        assert(after == before.insert(p as int, i));
        assert forall|k: int| 0 <= k < after.len() implies (#[trigger] after[k]) < i + 1
            && is_kept(items@[after[k] as int], now) by {
            if k < p {
                assert(after[k] == before[k]);
            } else if k > p {
                assert(after[k] == before[k - 1]);
            }
        }
        assert forall|j: int| 0 <= j < i + 1 && is_kept(#[trigger] items@[j], now) implies
            after.contains(j as usize) by {
            if j < i {
                assert(before.contains(j as usize));
                let k = choose|k: int| 0 <= k < before.len() && before[k] == j as usize;
                if k < p {
                    assert(after[k] == j as usize);
                } else {
                    assert(after[k + 1] == j as usize);
                }
            } else {
                assert(after[p as int] == i);
            }
        }
        assert forall|a: int, b: int| 0 <= a < b < after.len() implies comes_before(
            items@,
            now,
            (#[trigger] after[a]) as int,
            (#[trigger] after[b]) as int,
        ) by {
            if b < p {
                assert(after[a] == before[a] && after[b] == before[b]);
            } else if b == p {
                assert(after[a] == before[a]);
                assert(before[a] < i);
            } else if a < p {
                assert(after[a] == before[a] && after[b] == before[b - 1]);
            } else if a == p {
                assert(after[b] == before[b - 1]);
                if b - 1 > p {
                    assert(comes_before(
                        items@,
                        now,
                        before[p as int] as int,
                        before[b - 1] as int,
                    ));
                }
            } else {
                assert(after[a] == before[a - 1] && after[b] == before[b - 1]);
            }
        }
    }
}

/// What is imported of the items of a new feed.
pub fn filter_articles_for_initial_import(items: &Vec<FeedItem>, now: Timestamp) -> (res: Vec<
    FeedItem,
>)
    requires
        time::has_days_before(now, WINDOW_DAYS as int),
    ensures
        exists|order: Seq<usize>| is_initial_import(res@, items@, order, now),
{
    let cutoff: Timestamp = time::minus_days(now, WINDOW_DAYS);
    let mut order: Vec<usize> = Vec::new();
    let mut i: usize = 0;
    while i < items.len()
        invariant
            i <= items@.len(),
            cutoff == time::days_before(now, WINDOW_DAYS as int),
            is_import_order(order@, items@, i as nat, now),
        decreases items@.len() - i,
    {
        let keep: bool = match items[i].published_at {
            Some(at) => time::earlier(cutoff, at),
            None => true,
        };
        if keep {
            insert_by_time(&mut order, items, i, now);
        } else {
            proof {
                assert forall|j: int| 0 <= j < i + 1 && is_kept(#[trigger] items@[j], now) implies
                    order@.contains(j as usize) by {
                    assert(j < i);
                }
            }
        }
        i += 1;
    }
    let count: usize = if order.len() <= 20 {
        order.len()
    } else {
        20
    };
    let mut res: Vec<FeedItem> = Vec::new();
    while res.len() < count
        invariant
            count <= order@.len(),
            res@.len() <= count,
            is_import_order(order@, items@, items@.len(), now),
            forall|k: int|
                0 <= k < res@.len() ==> (#[trigger] res@[k])@ == items@[order@[k] as int]@,
        decreases count - res@.len(),
    {
        let from: usize = order[res.len()];
        res.push(items[from].duplicate());
    }
    proof {
        assert(is_initial_import(res@, items@, order@, now));
    }
    res
}

/// What is imported is at most twenty items, all from the last twelve months or without a
/// time, and none is newer than the one before it.
pub proof fn initial_import_is_bounded(
    kept: Seq<FeedItem>,
    items: Seq<FeedItem>,
    order: Seq<usize>,
    now: Timestamp,
)
    requires
        is_initial_import(kept, items, order, now),
    ensures
        kept.len() <= 20,
        kept.len() <= items.len(),
        forall|k: int| 0 <= k < kept.len() ==> is_kept(#[trigger] kept[k], now),
        forall|a: int, b: int|
            0 <= a < b < kept.len() ==> !time::is_earlier(
                order_time(#[trigger] kept[a], now),
                order_time(#[trigger] kept[b], now),
            ),
{
    assert forall|k: int| 0 <= k < kept.len() implies is_kept(#[trigger] kept[k], now)
        && kept[k].published_at == items[order[k] as int].published_at by {
        assert(kept[k]@ == items[order[k] as int]@);
        assert(kept[k].published_at == kept[k]@.published_at);
        assert(order[k] < items.len());
    }
    assert forall|a: int, b: int| 0 <= a < b < kept.len() implies !time::is_earlier(
        order_time(#[trigger] kept[a], now),
        order_time(#[trigger] kept[b], now),
    ) by {
        assert(comes_before(items, now, order[a] as int, order[b] as int));
    }
    let places = order.map_values(|i: usize| i as int);
    let all = Seq::new(items.len(), |i: int| i);
    assert forall|a: int, b: int| 0 <= a < b < places.len() implies places[a] != places[b] by {
        assert(comes_before(items, now, order[a] as int, order[b] as int));
    }
    assert(places.no_duplicates());
    assert forall|k: int| 0 <= k < places.len() implies all.contains(#[trigger] places[k]) by {
        assert(order[k] < items.len());
        assert(all[places[k]] == places[k]);
    }
    crate::lists::lemma_distinct_among(places, all);
}

/// How many of the first `n` items were published in the last twelve months.
pub open spec fn in_window_count(items: Seq<FeedItem>, n: nat, now: Timestamp) -> nat
    decreases n,
{
    if n == 0 {
        0
    } else {
        in_window_count(items, (n - 1) as nat, now) + if in_window(items[n - 1], now) {
            1nat
        } else {
            0nat
        }
    }
}

/// How often a feed with so many items in twelve months is fetched.
pub open spec fn priority_for(count: nat) -> Seq<char> {
    if count > 365 {
        "hot"@
    } else if count >= 52 {
        "warm"@
    } else {
        "cold"@
    }
}

/// How often a feed is fetched: often with more than one item a day over the last twelve
/// months, seldom with less than one a week.
pub fn calculate_priority(items: &Vec<FeedItem>, now: Timestamp) -> (res: &'static str)
    requires
        time::has_days_before(now, WINDOW_DAYS as int),
    ensures
        res@ == priority_for(in_window_count(items@, items@.len(), now)),
{
    let cutoff: Timestamp = time::minus_days(now, WINDOW_DAYS);
    let mut count: usize = 0;
    let mut i: usize = 0;
    while i < items.len()
        invariant
            i <= items@.len(),
            count <= i,
            cutoff == time::days_before(now, WINDOW_DAYS as int),
            count == in_window_count(items@, i as nat, now),
        decreases items@.len() - i,
    {
        if let Some(at) = items[i].published_at {
            if time::earlier(cutoff, at) {
                count += 1;
            }
        }
        i += 1;
    }
    if count > 365 {
        "hot"
    } else if count >= 52 {
        "warm"
    } else {
        "cold"
    }
}

/// What is stored of a new feed.
#[derive(Debug)]
pub struct NewFeed {
    pub url: String,
    pub title: String,
    pub icon_url: Option<String>,
    pub priority: String,
    pub article_count: i32,
    pub articles: Vec<FeedItem>,
}

/// What is stored of a new feed: the title that was asked for or else its own, the icon of
/// its site, how often it is fetched, and the items to be imported.
pub fn plan_feed(
    feed_url: &str,
    wanted_title: &Option<String>,
    meta: &FeedMeta,
    items: &Vec<FeedItem>,
    now: Timestamp,
) -> (res: NewFeed)
    requires
        time::has_days_before(now, WINDOW_DAYS as int),
    ensures
        res.url@ == feed_url@,
        res.title@ == (match wanted_title {
            Some(title) => title@,
            None => meta.title@,
        }),
        text::view_opt(res.icon_url) == (match meta.site_url {
            Some(site) => Some(
                "https://www.google.com/s2/favicons?domain="@ + host_of(site@) + "&sz=64"@,
            ),
            None => None,
        }),
        res.priority@ == priority_for(in_window_count(items@, items@.len(), now)),
        res.article_count == res.articles@.len(),
        exists|order: Seq<usize>| is_initial_import(res.articles@, items@, order, now),
{
    let articles: Vec<FeedItem> = filter_articles_for_initial_import(items, now);
    proof {
        let order = choose|order: Seq<usize>| is_initial_import(articles@, items@, order, now);
        assert(is_initial_import(articles@, items@, order, now));
    }
    NewFeed {
        url: feed_url.to_string(),
        title: match wanted_title {
            Some(title) => title.clone(),
            None => meta.title.clone(),
        },
        icon_url: generate_icon_url(meta.site_url.as_ref()),
        priority: calculate_priority(items, now).to_string(),
        article_count: articles.len() as i32,
        articles,
    }
}

/// The guid under which an item is stored: its own, or its address where it has none, or a
/// new id where it has neither.
pub fn article_guid(item: &FeedItem, fresh: Uuid) -> (res: String)
    ensures
        res@ == if item.guid@.len() > 0 {
            item.guid@
        } else {
            match item.url {
                Some(url) => url@,
                None => ids::hyphenated(fresh),
            }
        },
{
    if item.guid.as_str().is_empty() {
        match &item.url {
            Some(url) => url.clone(),
            None => ids::uuid_text(fresh),
        }
    } else {
        item.guid.clone()
    }
}

/// The most articles that are kept for a feed. Starred ones are kept besides.
pub const MAX_ARTICLES_PER_FEED: i64 = 200;

impl ListFeedsQuery {
    /// The most feeds that are listed: what was asked for or else 50, at most 100.
    pub fn page_limit(&self) -> (res: i64)
        ensures
            res == (match self.limit {
                Some(limit) => if limit <= 100 {
                    limit
                } else {
                    100
                },
                None => 50,
            }),
    {
        match self.limit {
            Some(limit) => if limit <= 100 {
                limit
            } else {
                100
            },
            None => 50,
        }
    }
}

/// What goes with a list of feeds: there may be more where the list is full.
pub fn list_meta(total: i64, listed: usize, limit: i64) -> (res: ListMeta)
    ensures
        res.total == total,
        res.cursor is None,
        res.has_more == (listed == limit),
{
    ListMeta { total, cursor: None, has_more: limit >= 0 && listed as u128 == limit as u128 }
}

impl UpdateFeedRequest {
    /// The title has at most 500 characters.
    pub fn has_valid_title(&self) -> (res: bool)
        ensures
            res == (self.title matches Some(title) ==> title@.len() <= 500),
    {
        match &self.title {
            Some(title) => text::char_count(title.as_str()) <= 500,
            None => true,
        }
    }

    /// A priority is hot, warm or cold.
    pub fn check_priority(&self) -> (res: ApiResult<()>)
        ensures
            match self.priority {
                Some(p) => if p@ == "hot"@ || p@ == "warm"@ || p@ == "cold"@ {
                    res is Ok
                } else {
                    error::fails(
                        res,
                        ErrorKind::Validation,
                        "Invalid priority. Use: hot, warm, cold"@,
                    )
                },
                None => res is Ok,
            },
    {
        if let Some(p) = &self.priority {
            let known: bool = text::same(p.as_str(), "hot") || text::same(p.as_str(), "warm")
                || text::same(p.as_str(), "cold");
            if !known {
                return Err(
                    ApiError::Validation("Invalid priority. Use: hot, warm, cold".to_string()),
                );
            }
        }
        Ok(())
    }
}

/// A typed address is kept, but for the white space around it: what results ends with it, and has
/// nothing before it but a scheme.
pub proof fn normalized_address_is_the_one_typed(input: &str, res: String)
    requires
        call_ensures(normalize_url, (input,), res),
    ensures
        text::ends_with(res@, text::trimmed(input@)),
        names_http(text::trimmed(input@)) ==> res@ == text::trimmed(input@),
        !names_http(text::trimmed(input@)) ==> res@.len() == "https://"@.len() + text::trimmed(
            input@,
        ).len() && text::begins_with(res@, "https://"@),
{
    let trimmed = text::trimmed(input@);
    assert(res@.skip(res@.len() - trimmed.len()) =~= trimmed);
    if !names_http(trimmed) {
        assert(res@.take("https://"@.len() as int) =~= "https://"@);
    }
}

/// A link that names a scheme or a host is followed as it is, and one that does not is what the
/// address of its feed ends with. One from the root on stands right behind the site.
pub proof fn link_is_followed_as_it_is(page_url: &str, href: &str, res: String)
    requires
        call_ensures(resolve_href, (page_url, href), res),
    ensures
        text::ends_with(res@, href@),
        names_http(href@) ==> res@ == href@,
        !names_http(href@) && text::begins_with(href@, "//"@) ==> res@ == "https:"@ + href@,
        !names_http(href@) && !text::begins_with(href@, "//"@) && text::begins_with(href@, "/"@)
            ==> res@ == site_of(page_url@) + href@,
{
    assert(res@.skip(res@.len() - href@.len()) =~= href@);
}

/// A link that is relative to a page takes the place of the last piece of the page's path.
pub proof fn relative_link_replaces_the_last_piece(
    directory: Seq<char>,
    last: Seq<char>,
    href: Seq<char>,
)
    requires
        !names_http(href),
        !text::begins_with(href, "/"@),
        text::split(directory, '/').len() >= 3,
        !directory.contains('#') && !directory.contains('?'),
        !last.contains('#') && !last.contains('?') && !last.contains('/'),
    ensures
        resolved(directory + "/"@ + last, href) == directory + "/"@ + href,
{
    let page = directory + "/"@ + last;
    reveal_strlit("/");
    reveal_strlit("//");
    assert forall|c: char| (c == '#' || c == '?') implies !#[trigger] page.contains(c) by {
        if page.contains(c) {
            let i = choose|i: int| 0 <= i < page.len() && page[i] == c;
            if i < directory.len() {
                assert(directory[i] == c);
                assert(directory.contains(c));
            } else if i > directory.len() {
                assert(last[i - directory.len() - 1] == c);
                assert(last.contains(c));
            }
        }
    }
    lemma_unsplit(page, '#');
    lemma_unsplit(page, '?');
    assert(path_part(page) == page);
    lemma_last_piece(directory, last);
    text::lemma_before_last(page, '/');
    assert(text::split(directory, '/') == text::split(page, '/').drop_last());
    assert(!text::begins_with(href, "//"@)) by {
        if text::begins_with(href, "//"@) {
            assert(href.take(2)[0] == href[0]);
            assert(href.take(1) =~= "/"@);
        }
    }
}

proof fn lemma_unsplit(s: Seq<char>, c: char)
    requires
        !s.contains(c),
    ensures
        text::split(s, c) == seq![s],
    decreases s.len(),
{
    if s.len() > 0 {
        let fewer = s.drop_last();
        assert forall|i: int| 0 <= i < fewer.len() implies fewer[i] != c by {
            assert(s[i] == fewer[i]);
            assert(s.contains(s[i]));
        }
        lemma_unsplit(fewer, c);
        assert(s.contains(s[s.len() - 1]));
        assert(fewer.push(s.last()) =~= s);
        assert(text::split(s, c) =~= seq![s]);
    } else {
        assert(s =~= Seq::<char>::empty());
    }
}

proof fn lemma_last_piece(directory: Seq<char>, last: Seq<char>)
    requires
        !last.contains('/'),
    ensures
        text::before_last(directory + "/"@ + last, '/') == Some(directory),
    decreases last.len(),
{
    reveal_strlit("/");
    let page = directory + "/"@ + last;
    if last.len() == 0 {
        assert(page.last() == '/');
        assert(page.drop_last() =~= directory);
    } else {
        let fewer = last.drop_last();
        assert(last.contains(last[last.len() - 1]));
        assert forall|i: int| 0 <= i < fewer.len() implies fewer[i] != '/' by {
            assert(last[i] == fewer[i]);
            assert(last.contains(last[i]));
        }
        lemma_last_piece(directory, fewer);
        assert(page.last() == last.last());
        assert(page.drop_last() =~= directory + "/"@ + fewer);
    }
}

/// A link to a feed is looked for with its type before its address and behind it, for RSS and then
/// for Atom, and the first form that is found counts.
pub proof fn first_form_of_a_link_counts(html: Seq<char>)
    ensures
        ({
            let open = "<link[^>]+"@;
            let more = "[^>]+"@;
            let address = "href=\"([^\"]+)\""@;
            let rss = "type=\"application/rss\\+xml\""@;
            let atom = "type=\"application/atom\\+xml\""@;
            &&& link_pattern(0) == open + rss + more + address
            &&& link_pattern(1) == open + address + more + rss
            &&& link_pattern(2) == open + atom + more + address
            &&& link_pattern(3) == open + address + more + atom
        }),
        match first_link(html, 0) {
            Some(href) => exists|i: int|
                0 <= i < 4 && #[trigger] is_found(html, i) && pattern::first_group(
                    link_pattern(i),
                    false,
                    html,
                ) == Some(href) && forall|j: int| 0 <= j < i ==> !#[trigger] is_found(html, j),
            None => forall|i: int| 0 <= i < 4 ==> !#[trigger] is_found(html, i),
        },
{
    reveal_strlit("<link[^>]+");
    reveal_strlit("[^>]+");
    reveal_strlit("href=\"([^\"]+)\"");
    reveal_strlit("type=\"application/rss\\+xml\"");
    reveal_strlit("type=\"application/atom\\+xml\"");
    reveal_strlit("<link[^>]+type=\"application/rss\\+xml\"[^>]+href=\"([^\"]+)\"");
    reveal_strlit("<link[^>]+href=\"([^\"]+)\"[^>]+type=\"application/rss\\+xml\"");
    reveal_strlit("<link[^>]+type=\"application/atom\\+xml\"[^>]+href=\"([^\"]+)\"");
    reveal_strlit("<link[^>]+href=\"([^\"]+)\"[^>]+type=\"application/atom\\+xml\"");
    let open = "<link[^>]+"@;
    let more = "[^>]+"@;
    let address = "href=\"([^\"]+)\""@;
    let rss = "type=\"application/rss\\+xml\""@;
    let atom = "type=\"application/atom\\+xml\""@;
    assert(link_pattern(0) =~= open + rss + more + address);
    assert(link_pattern(1) =~= open + address + more + rss);
    assert(link_pattern(2) =~= open + atom + more + address);
    assert(link_pattern(3) =~= open + address + more + atom);
    lemma_first_link(html, 0);
}

proof fn lemma_first_link(html: Seq<char>, from: int)
    requires
        0 <= from <= 4,
    ensures
        match first_link(html, from) {
            Some(href) => exists|i: int|
                from <= i < 4 && #[trigger] is_found(html, i) && pattern::first_group(
                    link_pattern(i),
                    false,
                    html,
                ) == Some(href) && forall|j: int| from <= j < i ==> !#[trigger] is_found(html, j),
            None => forall|i: int| from <= i < 4 ==> !#[trigger] is_found(html, i),
        },
    decreases 4 - from,
{
    if from < 4 {
        if is_found(html, from) {
            assert(first_link(html, from) == pattern::first_group(
                link_pattern(from),
                false,
                html,
            ));
        } else {
            lemma_first_link(html, from + 1);
            assert(first_link(html, from) == first_link(html, from + 1));
        }
    }
}

/// Whether a form of a link is found in a page.
pub open spec fn is_found(html: Seq<char>, i: int) -> bool {
    pattern::compiled(link_pattern(i), false) is Ok && pattern::first_group(
        link_pattern(i),
        false,
        html,
    ) is Some
}

/// An answer is that of a feed if and only if it is a success and its type names XML, RSS or Atom
/// anywhere, and what is tried stands right behind the address of the page.
pub proof fn feed_is_known_by_its_type(
    response: ProbeResponse,
    probe: ProbeView,
)
    ensures
        !is_feed_response(None),
        !response.success ==> !is_feed_response(Some(response)),
        response.success ==> (is_feed_response(Some(response)) <==> text::occurs_in(
            "xml"@,
            response.content_type@,
        ) || text::occurs_in("rss"@, response.content_type@) || text::occurs_in(
            "atom"@,
            response.content_type@,
        )),
        text::begins_with(probe.candidate(), text::without_trailing(probe.page_url, '/')),
        probe.candidate().skip(text::without_trailing(probe.page_url, '/').len() as int)
            == common_path(probe.at as int),
{
    let base = text::without_trailing(probe.page_url, '/');
    assert(probe.candidate().take(base.len() as int) =~= base);
    assert(probe.candidate().skip(base.len() as int) =~= common_path(probe.at as int));
}

/// The icon of a site is that of its host: what stands behind the scheme, up to the first slash.
pub proof fn icon_is_that_of_the_host(
    site: String,
    scheme: Seq<char>,
    host: Seq<char>,
    path: Seq<char>,
    res: Option<String>,
)
    requires
        call_ensures(generate_icon_url, (Some(&site),), res),
        scheme == "https://"@ || scheme == "http://"@,
        site@ == scheme + host + path,
        !host.contains('/'),
        !names_http(host + path),
        path.len() > 0 ==> path[0] == '/',
    ensures
        text::view_opt(res) == Some(
            "https://www.google.com/s2/favicons?domain="@ + host + "&sz=64"@,
        ),
{
    reveal_strlit("https://");
    reveal_strlit("http://");
    let rest = host + path;
    let https = "https://"@;
    let http = "http://"@;
    assert(site@ =~= scheme + rest);
    assert(text::without_leading(rest, http) == rest);
    assert(text::without_leading(rest, https) == rest);
    if scheme == https {
        assert(site@.take(8) =~= https);
        assert(site@.skip(8) =~= rest);
        assert(text::without_leading(site@, https) == rest);
    } else {
        assert(!text::begins_with(site@, https)) by {
            if text::begins_with(site@, https) {
                assert(site@.take(8)[4] == site@[4]);
                assert(site@[4] == http[4]);
            }
        }
        assert(text::without_leading(site@, https) == site@);
        assert(site@.take(7) =~= http);
        assert(site@.skip(7) =~= rest);
        assert(text::without_leading(site@, http) == rest);
    }
    lemma_first_piece(host, path);
}

proof fn lemma_first_piece(host: Seq<char>, path: Seq<char>)
    requires
        !host.contains('/'),
        path.len() > 0 ==> path[0] == '/',
    ensures
        text::split(host + path, '/').len() > 0,
        text::split(host + path, '/')[0] == host,
        path.len() > 0 ==> text::split(host + path, '/').len() > 1,
    decreases path.len(),
{
    let all = host + path;
    if path.len() == 0 {
        assert(all =~= host);
        lemma_unsplit(host, '/');
    } else {
        let fewer = path.drop_last();
        assert(fewer.len() > 0 ==> fewer[0] == path[0]);
        lemma_first_piece(host, fewer);
        assert(all.drop_last() =~= host + fewer);
        assert(all.last() == path.last());
    }
}

/// A new feed is stored under its address and under the title that was wished, or its own.
pub proof fn feed_is_stored_as_wished(
    feed_url: &str,
    wanted: Option<String>,
    meta: FeedMeta,
    items: Vec<FeedItem>,
    now: Timestamp,
    res: NewFeed,
)
    requires
        time::has_days_before(now, 365),
        call_ensures(plan_feed, (feed_url, &wanted, &meta, &items, now), res),
    ensures
        res.url@ == feed_url@,
        wanted matches Some(title) ==> res.title@ == title@,
        wanted is None ==> res.title@ == meta.title@,
        meta.site_url is None <==> res.icon_url is None,
        res.article_count == res.articles@.len(),
        res.articles@.len() <= 20,
        res.articles@.len() <= items@.len(),
{
    let order = choose|order: Seq<usize>| is_initial_import(res.articles@, items@, order, now);
    initial_import_is_bounded(res.articles@, items@, order, now);
}

/// Whether two items say the same, field by field.
pub open spec fn say_the_same(a: FeedItem, b: FeedItem) -> bool {
    &&& a.guid@ == b.guid@
    &&& text::view_opt(a.url) == text::view_opt(b.url)
    &&& a.title@ == b.title@
    &&& text::view_opt(a.content) == text::view_opt(b.content)
    &&& text::view_opt(a.summary) == text::view_opt(b.summary)
    &&& text::view_opt(a.author) == text::view_opt(b.author)
    &&& a.published_at == b.published_at
    &&& text::views(a.categories@) == text::views(b.categories@)
}

/// The first import of a feed takes the twenty newest of its items from the last 365 days and of
/// those without a time, which count as new: each as it is and none twice, and none that is left
/// out is newer than one that is taken, unless it is too old.
pub proof fn first_import_takes_the_newest(
    items: Vec<FeedItem>,
    now: Timestamp,
    kept: Vec<FeedItem>,
) -> (order: Seq<usize>)
    requires
        time::has_days_before(now, 365),
        items@.len() <= usize::MAX,
        call_ensures(filter_articles_for_initial_import, (&items, now), kept),
        forall|i: int|
            0 <= i < items@.len() ==> ((#[trigger] items@[i]).published_at matches Some(at)
                ==> at.ordinary()),
    ensures
        kept@.len() <= order.len(),
        kept@.len() <= 20,
        kept@.len() == order.len() || kept@.len() == 20,
        forall|a: int, b: int| 0 <= a < b < order.len() ==> order[a] != order[b],
        forall|k: int| 0 <= k < order.len() ==> (#[trigger] order[k]) < items@.len(),
        forall|k: int|
            0 <= k < kept@.len() ==> say_the_same(#[trigger] kept@[k], items@[order[k] as int]),
        forall|i: int|
            0 <= i < items@.len() ==> (order.contains(i as usize) <==> match (
            #[trigger] items@[i]).published_at {
                Some(at) => at.at() > now.at() - 365 * 86_400_000_000_000,
                None => true,
            }),
        forall|a: int, b: int|
            0 <= a < b < order.len() ==> {
                let newer = items@[(#[trigger] order[a]) as int].published_at;
                let older = items@[(#[trigger] order[b]) as int].published_at;
                (match newer {
                    Some(at) => at.at(),
                    None => now.at(),
                }) >= (match older {
                    Some(at) => at.at(),
                    None => now.at(),
                })
            },
{
    let order = choose|order: Seq<usize>| is_initial_import(kept@, items@, order, now);
    assert forall|a: int, b: int| 0 <= a < b < order.len() implies order[a] != order[b] by {
        assert(comes_before(items@, now, order[a] as int, order[b] as int));
    }
    assert forall|k: int| 0 <= k < kept@.len() implies say_the_same(
        #[trigger] kept@[k],
        items@[order[k] as int],
    ) by {
        assert(kept@[k]@ == items@[order[k] as int]@);
        let a = kept@[k]@;
        let b = items@[order[k] as int]@;
        assert(a.guid == b.guid && a.url == b.url && a.title == b.title);
        assert(a.content == b.content && a.summary == b.summary && a.author == b.author);
        assert(a.published_at == b.published_at && a.categories == b.categories);
    }
    assert forall|i: int| 0 <= i < items@.len() implies (order.contains(i as usize) <==> match (
    #[trigger] items@[i]).published_at {
        Some(at) => at.at() > now.at() - 365 * 86_400_000_000_000,
        None => true,
    }) by {
        if let Some(at) = items@[i].published_at {
            assert(at.ordinary());
            time::earlier_is_less(time::days_before(now, 365), at);
            time::days_before_is_exact(now, 365);
        }
        if order.contains(i as usize) {
            let k = choose|k: int| 0 <= k < order.len() && order[k] == i as usize;
            assert(is_kept(items@[order[k] as int], now));
        }
    }
    assert forall|a: int, b: int| 0 <= a < b < order.len() implies {
        let newer = items@[(#[trigger] order[a]) as int].published_at;
        let older = items@[(#[trigger] order[b]) as int].published_at;
        (match newer {
            Some(at) => at.at(),
            None => now.at(),
        }) >= (match older {
            Some(at) => at.at(),
            None => now.at(),
        })
    } by {
        assert(comes_before(items@, now, order[a] as int, order[b] as int));
        let x = items@[order[a] as int];
        let y = items@[order[b] as int];
        time::earlier_is_less(order_time(y, now), order_time(x, now));
        time::earlier_is_less(order_time(x, now), order_time(y, now));
    }
    order
}

/// The test for an item from the last 365 days.
pub open spec fn is_recent(now: Timestamp) -> spec_fn(FeedItem) -> bool {
    |item: FeedItem|
        item.published_at matches Some(at) && at.at() > now.at() - 365 * 86_400_000_000_000
}

/// A feed is fetched often if and only if it has more than 365 items from the last 365 days, and
/// seldom if and only if it has fewer than 52.
pub proof fn busy_feeds_are_fetched_often(items: Vec<FeedItem>, now: Timestamp, res: &'static str)
    requires
        time::has_days_before(now, 365),
        call_ensures(calculate_priority, (&items, now), res),
        forall|i: int|
            0 <= i < items@.len() ==> ((#[trigger] items@[i]).published_at matches Some(at)
                ==> at.ordinary()),
    ensures
        res@ == "hot"@ <==> items@.filter(is_recent(now)).len() > 365,
        res@ == "cold"@ <==> items@.filter(is_recent(now)).len() < 52,
        res@ == "warm"@ <==> 52 <= items@.filter(is_recent(now)).len() <= 365,
{
    reveal_strlit("hot");
    reveal_strlit("warm");
    reveal_strlit("cold");
    assert("hot"@.len() == 3 && "warm"@.len() == 4 && "cold"@.len() == 4);
    assert("warm"@[0] != "cold"@[0]);
    lemma_recent_count(items@, items@.len(), now);
    crate::lists::lemma_filter_all(items@, is_recent(now));
}

proof fn lemma_recent_count(items: Seq<FeedItem>, n: nat, now: Timestamp)
    requires
        n <= items.len(),
        time::has_days_before(now, 365),
        forall|i: int|
            0 <= i < items.len() ==> ((#[trigger] items[i]).published_at matches Some(at)
                ==> at.ordinary()),
    ensures
        in_window_count(items, n, now) == items.take(n as int).filter(is_recent(now)).len(),
    decreases n,
{
    crate::lists::lemma_filter_all(items, is_recent(now));
    if n > 0 {
        lemma_recent_count(items, (n - 1) as nat, now);
        crate::lists::lemma_filter_step(items, n - 1, is_recent(now));
        if let Some(at) = items[n - 1].published_at {
            time::earlier_is_less(time::days_before(now, 365), at);
            time::days_before_is_exact(now, 365);
        }
    }
}

/// An item is stored under its own guid where it has one, else under its address, and under the
/// new id only where it has neither.
pub proof fn item_is_known_by_its_guid(item: FeedItem, fresh: Uuid, res: String)
    requires
        call_ensures(article_guid, (&item, fresh), res),
    ensures
        item.guid@.len() > 0 ==> res@ == item.guid@,
        item.guid@.len() == 0 && item.url is Some ==> res@ == item.url->0@,
        item.guid@.len() == 0 && item.url is None ==> res@ == ids::hyphenated(fresh),
{
}

/// A list of feeds has as many as were asked for, at most 100 and 50 where nothing was asked for,
/// and may go on where it is full. A priority is accepted if and only if feeds can have it.
pub proof fn feeds_are_listed_and_changed_as_asked(
    query: ListFeedsQuery,
    limit: i64,
    total: i64,
    listed: usize,
    meta: ListMeta,
    request: UpdateFeedRequest,
    checked: ApiResult<()>,
)
    requires
        call_ensures(ListFeedsQuery::page_limit, (&query,), limit),
        call_ensures(list_meta, (total, listed, limit), meta),
        call_ensures(UpdateFeedRequest::check_priority, (&request,), checked),
    ensures
        limit <= 100,
        query.limit is None ==> limit == 50,
        query.limit matches Some(n) ==> limit == n || (n > 100 && limit == 100),
        meta.total == total,
        meta.has_more <==> listed as int == limit as int,
        checked is Ok <==> request.priority is None || exists|count: nat|
            request.priority->0@ == #[trigger] priority_for(count),
        checked matches Err(e) ==> e@.0 == ErrorKind::Validation,
{
    if let Some(p) = request.priority {
        assert(priority_for(366) == "hot"@);
        assert(priority_for(52) == "warm"@);
        assert(priority_for(0) == "cold"@);
    }
}

/// The feed of a page is at the address that its first link to a feed gives, as seen from the
/// page. Addresses have from 1 to 2048 characters, and titles at most 500.
pub proof fn page_leads_to_its_feed(
    page_url: &str,
    html: &str,
    res: Option<String>,
    created: CreateFeedRequest,
    valid: bool,
    changed: UpdateFeedRequest,
    fits: bool,
)
    requires
        call_ensures(discover_in_page, (page_url, html), res),
        call_ensures(CreateFeedRequest::has_valid_url, (&created,), valid),
        call_ensures(UpdateFeedRequest::has_valid_title, (&changed,), fits),
    ensures
        res is None <==> forall|i: int| 0 <= i < 4 ==> !#[trigger] is_found(html@, i),
        res matches Some(address) ==> exists|i: int|
            0 <= i < 4 && #[trigger] is_found(html@, i) && (forall|j: int|
                0 <= j < i ==> !#[trigger] is_found(html@, j)) && address@ == resolved(
                page_url@,
                pattern::first_group(link_pattern(i), false, html@)->0,
            ),
        valid <==> 0 < created.url@.len() < 2049,
        changed.title is None ==> fits,
        changed.title matches Some(title) ==> (fits <==> title@.len() < 501),
{
    first_form_of_a_link_counts(html@);
}

/// The search for a feed tries the usual paths of a site in turn. One that is answered with
/// success as XML, RSS or Atom is the feed, and with any other answer or none the next one is
/// tried.
pub proof fn usual_paths_are_tried_in_turn(
    page_url: &str,
    start: FeedProbe,
    first: ProbeStep,
    run: &mut FeedProbe,
    response: ProbeResponse,
    next: ProbeStep,
    silent: &mut FeedProbe,
)
    requires
        call_ensures(FeedProbe::new, (page_url,), start),
        call_ensures(FeedProbe::next_step, (&start,), first),
        old(run)@.at < 7,
        !old(run)@.found,
        call_ensures(FeedProbe::handle, (run, &Some(response)), ()),
        call_ensures(FeedProbe::next_step, (&*final(run),), next),
        old(silent)@.at < 7,
        !old(silent)@.found,
        call_ensures(FeedProbe::handle, (silent, &None), ()),
    ensures
        first matches ProbeStep::Try(url) && url@ == text::without_trailing(page_url@, '/')
            + "/feed"@,
        ({
            let known = response.success && (text::occurs_in("xml"@, response.content_type@)
                || text::occurs_in("rss"@, response.content_type@) || text::occurs_in(
                "atom"@,
                response.content_type@,
            ));
            let at = old(run)@.at;
            let site = text::without_trailing(old(run)@.page_url, '/');
            let tried = if known {
                at
            } else {
                at + 1
            };
            let path = if tried == 0 {
                "/feed"@
            } else if tried == 1 {
                "/feed.xml"@
            } else if tried == 2 {
                "/rss"@
            } else if tried == 3 {
                "/rss.xml"@
            } else if tried == 4 {
                "/atom.xml"@
            } else if tried == 5 {
                "/index.xml"@
            } else {
                "/feeds/posts/default"@
            };
            &&& known ==> (next matches ProbeStep::Found(url) && url@ == site + path)
            &&& !known && at < 6 ==> (next matches ProbeStep::Try(url) && url@ == site + path)
            &&& !known && at == 6 ==> (next matches ProbeStep::GiveUp(reason) && reason@
                == "No RSS/Atom feed found on this page"@)
        }),
        final(silent)@.at == old(silent)@.at + 1 && !final(silent)@.found,
{
}

/// A priority is accepted if and only if it is one of the three, and none is as good as one.
pub proof fn priorities_are_three(request: UpdateFeedRequest, res: ApiResult<()>)
    requires
        call_ensures(UpdateFeedRequest::check_priority, (&request,), res),
    ensures
        request.priority is None ==> res is Ok,
        request.priority matches Some(p) ==> (res is Ok <==> p@ == "cold"@ || p@ == "warm"@ || p@
            == "hot"@),
        res matches Err(e) ==> (e matches ApiError::Validation(m) && m@
            == "Invalid priority. Use: hot, warm, cold"@),
{
}

/// The copy of an item says what the item says.
pub proof fn copied_item_is_the_same(item: FeedItem, res: FeedItem)
    requires
        call_ensures(FeedItem::duplicate, (&item,), res),
    ensures
        res.guid@ == item.guid@ && res.title@ == item.title@,
        text::view_opt(res.url) == text::view_opt(item.url),
        text::view_opt(res.content) == text::view_opt(item.content),
        text::view_opt(res.summary) == text::view_opt(item.summary),
        text::view_opt(res.author) == text::view_opt(item.author),
        res.published_at == item.published_at,
        text::views(res.categories@) == text::views(item.categories@),
{
    assert(res@ == item@);
}

} // verus!
