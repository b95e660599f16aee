//! Articles of a user.

use vstd::prelude::*;
use vstd::string::*;

use crate::error;
use crate::error::{ApiError, ApiResult, ErrorKind};
use crate::ids::Uuid;
use crate::lists;
use crate::routes::cursor;
use crate::routes::cursor::ArticleCursor;
use crate::text;
use crate::time::Timestamp;

verus! {

/// The most articles on a page.
pub const MAX_LIMIT: i64 = 100;

/// The articles on a page where the request names no number.
pub const DEFAULT_LIMIT: i64 = 50;

/// A request for the articles of a user.
#[derive(Debug)]
pub struct ListArticlesQuery {
    pub feed_id: Option<Uuid>,
    pub folder_id: Option<Uuid>,
    pub status: Option<String>,
    /// Full-text search, which is refused.
    pub search: Option<String>,
    /// Categories, with commas between them.
    pub categories: Option<String>,
    /// What an earlier page gave for the next one.
    pub cursor: Option<String>,
    pub limit: Option<i64>,
}

/// A request to mark all articles as read, of a feed, of a folder or of the user.
#[derive(Clone, Copy, Debug)]
pub struct MarkAllReadQuery {
    pub feed_id: Option<Uuid>,
    pub folder_id: Option<Uuid>,
}

/// A request to change an article.
#[derive(Clone, Copy, Debug, PartialEq, Eq, Structural)]
pub struct UpdateArticleRequest {
    pub is_read: Option<bool>,
    pub is_starred: Option<bool>,
}

/// A request to change several articles.
#[derive(Debug)]
pub struct BatchUpdateRequest {
    pub article_ids: Vec<Uuid>,
    pub is_read: Option<bool>,
    pub is_starred: Option<bool>,
}

/// An article in a list, without its content.
#[derive(Debug)]
pub struct ArticleListItem {
    pub id: Uuid,
    pub feed_id: Uuid,
    pub feed_title: Option<String>,
    pub url: Option<String>,
    pub title: String,
    pub author: Option<String>,
    pub summary: Option<String>,
    pub image_url: Option<String>,
    pub published_at: Option<Timestamp>,
    pub is_read: bool,
    pub is_starred: bool,
    pub word_count: Option<i32>,
    pub categories: Vec<String>,
}

/// A page of articles.
#[derive(Debug)]
pub struct ArticlesListResponse {
    pub data: Vec<ArticleListItem>,
    pub meta: ListMeta,
}

/// What goes with a page of articles.
#[derive(Debug)]
pub struct ListMeta {
    pub total: i64,
    pub cursor: Option<String>,
    pub has_more: bool,
}

/// What is asked of the database for a page of articles.
#[derive(Debug)]
pub struct ListPlan {
    /// The articles on the page.
    pub limit: i64,
    /// The articles to fetch: one more, which tells whether there is a next page.
    pub probe_limit: i64,
    /// The place behind which the page starts.
    pub cursor: Option<ArticleCursor>,
    pub status: Option<String>,
    /// Only articles in at least one of these categories.
    pub categories: Option<Vec<String>>,
    pub feed_id: Option<Uuid>,
    pub folder_id: Option<Uuid>,
}

/// What is said of a search.
pub open spec fn search_refused() -> Seq<char> {
    "The `search` filter is not implemented on this endpoint. It is refused rather than ignored, because ignoring it would return an unfiltered page that looks like a search result."@
}

/// The number of articles on a page: what was asked for or else the usual number, at least 1
/// and at most the largest.
pub open spec fn page_limit(limit: Option<i64>) -> i64 {
    match limit {
        Some(limit) => if limit < 1 {
            1
        } else if limit > MAX_LIMIT {
            MAX_LIMIT
        } else {
            limit
        },
        None => DEFAULT_LIMIT,
    }
}

/// The test for a text that is not empty.
pub open spec fn is_filled() -> spec_fn(Seq<char>) -> bool {
    |s: Seq<char>| s.len() > 0
}

/// The categories in a list with commas: without the white space around them, and without
/// the empty ones.
pub open spec fn listed_categories(list: Seq<char>) -> Seq<Seq<char>> {
    text::split(list, ',').map_values(|s: Seq<char>| text::trimmed(s)).filter(is_filled())
}

/// The categories that were asked for, where there is at least one.
pub open spec fn wanted_categories(list: Option<Seq<char>>) -> Option<Seq<Seq<char>>> {
    match list {
        Some(list) => if listed_categories(list).len() > 0 {
            Some(listed_categories(list))
        } else {
            None
        },
        None => None,
    }
}

/// The characters of several optional texts.
pub open spec fn category_views(categories: Option<Vec<String>>) -> Option<Seq<Seq<char>>> {
    match categories {
        Some(list) => Some(text::views(list@)),
        None => None,
    }
}

fn parse_categories(list: &str) -> (res: Vec<String>)
    ensures
        text::views(res@) == listed_categories(list@),
{
    let parts: Vec<String> = text::split_on(list, ',');
    let ghost trimmed = text::split(list@, ',').map_values(|s: Seq<char>| text::trimmed(s));
    let mut res: Vec<String> = Vec::new();
    let mut i: usize = 0;
    proof {
        lists::lemma_filter_all(trimmed, is_filled());
        assert(text::views(res@) =~= trimmed.take(0).filter(is_filled()));
    }
    while i < parts.len()
        invariant
            i <= parts@.len(),
            text::views(parts@) == text::split(list@, ','),
            trimmed == text::split(list@, ',').map_values(|s: Seq<char>| text::trimmed(s)),
            text::views(res@) == trimmed.take(i as int).filter(is_filled()),
        decreases parts@.len() - i,
    {
        let ghost before = res@;
        let part: String = text::trim(parts[i].as_str());
        proof {
            assert(trimmed.len() == parts@.len());
            assert(text::views(parts@)[i as int] == parts@[i as int]@);
            assert(trimmed[i as int] == part@);
            lists::lemma_filter_step(trimmed, i as int, is_filled());
        }
        if !part.as_str().is_empty() {
            res.push(part);
            proof {
                assert(text::views(res@) =~= text::views(before).push(part@));
            }
        }
        i += 1;
    }
    res
}

impl ListArticlesQuery {
    /// What is asked of the database: a search is refused, and so is a cursor that stands
    /// for no place. With the token for a place, the page behind that place is asked for.
    pub fn plan(&self) -> (res: ApiResult<ListPlan>)
        ensures
            self.search is Some ==> error::fails(res, ErrorKind::Validation, search_refused()),
            self.search is None && self.cursor is Some && cursor::cursor_of(self.cursor->0@) is None
                ==> error::fails(res, ErrorKind::Validation, cursor::malformed_cursor()),
            self.search is None && (self.cursor matches Some(raw) ==> cursor::cursor_of(raw@) is Some)
                ==> res is Ok && self.is_planned(
                match self.cursor {
                    Some(raw) => cursor::cursor_of(raw@),
                    None => None,
                },
                res->Ok_0,
            ),
            forall|place: ArticleCursor|
                self.search is None && self.cursor is Some && self.cursor->0@
                    == #[trigger] cursor::cursor_token(place) && place.wf() ==> res is Ok
                    && self.is_planned(Some(place), res->Ok_0),
            res matches Ok(plan) ==> (plan.cursor matches Some(place) ==> place.wf()),
    {
        if self.search.is_some() {
            return Err(
                ApiError::Validation(
                    "The `search` filter is not implemented on this endpoint. It is refused rather than ignored, because ignoring it would return an unfiltered page that looks like a search result.".to_string(),
                ),
            );
        }
        let cursor: Option<ArticleCursor> = match &self.cursor {
            Some(raw) => match ArticleCursor::decode(raw.as_str()) {
                Ok(cursor) => Some(cursor),
                Err(e) => {
                    return Err(e);
                },
            },
            None => None,
        };
        Ok(self.plan_from(cursor))
    }

    /// Whether `plan` is what is asked of the database for the page behind a place.
    pub open spec fn is_planned(self, cursor: Option<ArticleCursor>, plan: ListPlan) -> bool {
        &&& plan.limit == page_limit(self.limit)
        &&& plan.probe_limit == plan.limit + 1
        &&& plan.cursor == cursor
        &&& text::view_opt(plan.status) == text::view_opt(self.status)
        &&& category_views(plan.categories) == wanted_categories(text::view_opt(self.categories))
        &&& plan.feed_id == self.feed_id
        &&& plan.folder_id == if self.feed_id is Some {
            None
        } else {
            self.folder_id
        }
    }

    /// What is asked of the database for the page behind a place, or for the first page. A
    /// feed goes before a folder.
    pub fn plan_from(&self, cursor: Option<ArticleCursor>) -> (res: ListPlan)
        ensures
            self.is_planned(cursor, res),
    {
        let limit: i64 = match self.limit {
            Some(limit) => if limit < 1 {
                1
            } else if limit > MAX_LIMIT {
                MAX_LIMIT
            } else {
                limit
            },
            None => DEFAULT_LIMIT,
        };
        let categories: Option<Vec<String>> = match &self.categories {
            Some(list) => {
                let found: Vec<String> = parse_categories(list.as_str());
                if found.len() > 0 {
                    Some(found)
                } else {
                    None
                }
            },
            None => None,
        };
        ListPlan {
            limit,
            probe_limit: limit + 1,
            cursor,
            status: text::clone_opt(&self.status),
            categories,
            feed_id: self.feed_id,
            folder_id: if self.feed_id.is_some() {
                None
            } else {
                self.folder_id
            },
        }
    }
}

/// The place of an article.
pub open spec fn place_of(item: ArticleListItem) -> ArticleCursor {
    ArticleCursor { published_at: item.published_at, id: item.id }
}

/// Whether `page` is the page for the rows that were fetched: it shows no more than it may,
/// and it has a successor, and the token for it, if and only if there are more rows.
pub open spec fn is_page(
    page: ArticlesListResponse,
    rows: Seq<ArticleListItem>,
    limit: i64,
    total: i64,
) -> bool {
    &&& page.meta.total == total
    &&& page.meta.has_more == (rows.len() > limit)
    &&& page.data@ == if rows.len() > limit {
        rows.take(limit as int)
    } else {
        rows
    }
    &&& text::view_opt(page.meta.cursor) == if rows.len() > limit {
        Some(cursor::cursor_token(place_of(rows[limit - 1])))
    } else {
        None
    }
}

/// What a page shows of the rows that were fetched, and the place behind which the next page
/// starts, where there are more rows.
pub fn cut_page(mut rows: Vec<ArticleListItem>, limit: i64) -> (res: (
    Vec<ArticleListItem>,
    Option<ArticleCursor>,
))
    requires
        1 <= limit <= MAX_LIMIT,
    ensures
        rows@.len() <= limit ==> res.0@ == rows@ && res.1 is None,
        rows@.len() > limit ==> res.0@ == rows@.take(limit as int) && res.1 == Some(
            place_of(rows@[limit - 1]),
        ),
{
    if rows.len() <= limit as usize {
        return (rows, None);
    }
    rows.truncate(limit as usize);
    let last: &ArticleListItem = &rows[limit as usize - 1];
    let place: ArticleCursor = ArticleCursor { published_at: last.published_at, id: last.id };
    (rows, Some(place))
}

/// The page for the rows that were fetched.
pub fn finish_page(rows: Vec<ArticleListItem>, limit: i64, total: i64) -> (res: ApiResult<
    ArticlesListResponse,
>)
    requires
        1 <= limit <= MAX_LIMIT,
        forall|i: int| 0 <= i < rows@.len() ==> place_of(#[trigger] rows@[i]).wf(),
    ensures
        res matches Ok(page) && is_page(page, rows@, limit, total),
{
    proof {
        if rows@.len() > limit {
            assert(place_of(rows@[limit - 1]).wf());
        }
    }
    let (data, next) = cut_page(rows, limit);
    match next {
        Some(place) => match place.encode() {
            Ok(token) => Ok(
                ArticlesListResponse {
                    data,
                    meta: ListMeta { total, cursor: Some(token), has_more: true },
                },
            ),
            Err(e) => Err(e),
        },
        None => Ok(
            ArticlesListResponse { data, meta: ListMeta { total, cursor: None, has_more: false } },
        ),
    }
}

/// A page announces a successor if and only if it hands over the token to reach it, and is
/// never longer than it may be.
pub proof fn successor_comes_with_its_token(
    page: ArticlesListResponse,
    rows: Seq<ArticleListItem>,
    limit: i64,
    total: i64,
)
    requires
        1 <= limit,
        is_page(page, rows, limit, total),
    ensures
        page.meta.has_more <==> page.meta.cursor is Some,
        page.data@.len() <= limit,
        page.meta.has_more ==> page.data@.len() == limit,
{
}

/// A page that holds exactly what is left announces no successor.
pub proof fn exact_fit_has_no_successor(
    page: ArticlesListResponse,
    rows: Seq<ArticleListItem>,
    limit: i64,
    total: i64,
)
    requires
        1 <= limit,
        rows.len() == limit,
        is_page(page, rows, limit, total),
    ensures
        page.data@ == rows,
        !page.meta.has_more,
        page.meta.cursor is None,
{
}

impl UpdateArticleRequest {
    /// Whether the request asks for a change at all. One that does not is answered with the
    /// article as it is.
    pub fn changes_something(&self) -> (res: bool)
        ensures
            res == (self.is_read is Some || self.is_starred is Some),
    {
        self.is_read.is_some() || self.is_starred.is_some()
    }
}

impl BatchUpdateRequest {
    /// Between 1 and 100 articles are changed at once.
    pub fn check(&self) -> (res: ApiResult<()>)
        ensures
            1 <= self.article_ids@.len() <= 100 ==> res is Ok,
            self.article_ids@.len() == 0 ==> error::fails(
                res,
                ErrorKind::Validation,
                "No article IDs provided"@,
            ),
            self.article_ids@.len() > 100 ==> error::fails(
                res,
                ErrorKind::Validation,
                "Maximum 100 articles per batch"@,
            ),
    {
        if self.article_ids.len() == 0 {
            return Err(ApiError::Validation("No article IDs provided".to_string()));
        }
        if self.article_ids.len() > 100 {
            return Err(ApiError::Validation("Maximum 100 articles per batch".to_string()));
        }
        Ok(())
    }

    /// How many articles were changed: those that were starred or unstarred where that was
    /// asked for, else those that were marked, else none.
    pub fn updated(&self, marked: i64, starred: i64) -> (res: i64)
        ensures
            res == if self.is_starred is Some {
                starred
            } else if self.is_read is Some {
                marked
            } else {
                0
            },
    {
        if self.is_starred.is_some() {
            starred
        } else if self.is_read.is_some() {
            marked
        } else {
            0
        }
    }
}

/// Which articles are marked as read. A feed goes before a folder.
#[derive(Clone, Copy, Debug, PartialEq, Eq, Structural)]
pub enum MarkScope {
    Feed(Uuid),
    Folder(Uuid),
    All,
}

impl MarkAllReadQuery {
    /// Which articles are marked as read.
    pub fn scope(&self) -> (res: MarkScope)
        ensures
            res == match (self.feed_id, self.folder_id) {
                (Some(feed), _) => MarkScope::Feed(feed),
                (None, Some(folder)) => MarkScope::Folder(folder),
                (None, None) => MarkScope::All,
            },
    {
        match (self.feed_id, self.folder_id) {
            (Some(feed), _) => MarkScope::Feed(feed),
            (None, Some(folder)) => MarkScope::Folder(folder),
            (None, None) => MarkScope::All,
        }
    }
}

/// A page is asked for as long as was wished, from 1 to 100 articles and 50 where nothing was
/// wished, with one article more to tell whether there is a next page, behind the place that was
/// reached, and of the feed where one is named, else of the folder.
pub proof fn page_is_asked_for_as_wished(
    query: ListArticlesQuery,
    place: Option<ArticleCursor>,
    plan: ListPlan,
)
    requires
        call_ensures(ListArticlesQuery::plan_from, (&query, place), plan),
    ensures
        1 <= plan.limit <= 100,
        query.limit is None ==> plan.limit == 50,
        query.limit matches Some(n) ==> (1 <= n <= 100 ==> plan.limit == n) && (n < 1
            ==> plan.limit == 1) && (n > 100 ==> plan.limit == 100),
        plan.probe_limit == plan.limit + 1,
        plan.cursor == place,
        text::view_opt(plan.status) == text::view_opt(query.status),
        plan.feed_id == query.feed_id,
        query.feed_id is Some ==> plan.folder_id is None,
        query.feed_id is None ==> plan.folder_id == query.folder_id,
        query.categories is None ==> plan.categories is None,
{
}

/// The categories of a request are the pieces of its list between the commas, without the white
/// space around them: a category is asked for if and only if one of the pieces is it and is not
/// blank. Where all pieces are blank, none is asked for.
pub proof fn named_categories_are_asked_for(
    query: ListArticlesQuery,
    place: Option<ArticleCursor>,
    plan: ListPlan,
    list: Seq<char>,
    wanted: Seq<char>,
)
    requires
        call_ensures(ListArticlesQuery::plan_from, (&query, place), plan),
        text::view_opt(query.categories) == Some(list),
    ensures
        (exists|j: int| 0 <= j < plan.categories->0@.len() && plan.categories is Some
            && (#[trigger] plan.categories->0@[j])@ == wanted) <==> wanted.len() > 0 && (exists|
            i: int,
        |
            0 <= i < text::split(list, ',').len() && text::trimmed(
                #[trigger] text::split(list, ',')[i],
            ) == wanted),
        plan.categories matches Some(all) ==> all@.len() > 0,
{
    let pieces = text::split(list, ',');
    let trimmed = pieces.map_values(|s: Seq<char>| text::trimmed(s));
    let listed = listed_categories(list);
    assert(listed == trimmed.filter(is_filled()));
    if wanted.len() > 0 && exists|i: int|
        0 <= i < pieces.len() && text::trimmed(#[trigger] pieces[i]) == wanted {
        let i = choose|i: int|
            0 <= i < pieces.len() && text::trimmed(#[trigger] pieces[i]) == wanted;
        assert(trimmed[i] == wanted);
        trimmed.lemma_filter_contains(is_filled(), i);
        let j = choose|j: int| 0 <= j < listed.len() && listed[j] == wanted;
        assert(text::views(plan.categories->0@)[j] == plan.categories->0@[j]@);
    }
    if plan.categories is Some && exists|j: int|
        0 <= j < plan.categories->0@.len() && (#[trigger] plan.categories->0@[j])@ == wanted {
        let j = choose|j: int|
            0 <= j < plan.categories->0@.len() && (#[trigger] plan.categories->0@[j])@ == wanted;
        assert(text::views(plan.categories->0@)[j] == wanted);
        assert(listed[j] == wanted);
        lists::lemma_filter_member(trimmed, is_filled(), j);
        let i = choose|i: int| 0 <= i < trimmed.len() && trimmed[i] == wanted;
        assert(text::trimmed(pieces[i]) == wanted);
    }
}

/// A page shows the first of the rows that were fetched, all of them where they fit, and says
/// that more follow if and only if they do not fit. The token then stands for the last article
/// that is shown, by its time and its id.
pub proof fn page_shows_the_first_rows(
    rows: Vec<ArticleListItem>,
    limit: i64,
    total: i64,
    res: ApiResult<ArticlesListResponse>,
)
    requires
        1 <= limit <= 100,
        call_ensures(finish_page, (rows, limit, total), res),
    ensures
        res matches Ok(page) && {
            let shown = page.data@.len() as int;
            &&& shown <= limit
            &&& shown <= rows@.len()
            &&& shown == limit || shown == rows@.len()
            &&& forall|i: int| 0 <= i < shown ==> #[trigger] page.data@[i] == rows@[i]
            &&& page.meta.total == total
            &&& page.meta.has_more <==> shown < rows@.len()
            &&& page.meta.has_more ==> text::view_opt(page.meta.cursor) == Some(
                cursor::cursor_token(
                    ArticleCursor {
                        published_at: page.data@.last().published_at,
                        id: page.data@.last().id,
                    },
                ),
            )
            &&& !page.meta.has_more ==> page.meta.cursor is None
        },
{
}

/// A batch has from 1 to 100 articles, and tells how many were starred or unstarred where that was
/// asked for, else how many were marked.
pub proof fn batch_is_bounded_and_counted(
    request: BatchUpdateRequest,
    checked: ApiResult<()>,
    marked: i64,
    starred: i64,
    told: i64,
)
    requires
        call_ensures(BatchUpdateRequest::check, (&request,), checked),
        call_ensures(BatchUpdateRequest::updated, (&request, marked, starred), told),
    ensures
        checked is Ok <==> request.article_ids@.len() > 0 && request.article_ids@.len() < 101,
        checked matches Err(e) ==> e@.0 == ErrorKind::Validation,
        request.is_starred is Some ==> told == starred,
        request.is_starred is None && request.is_read is Some ==> told == marked,
        request.is_starred is None && request.is_read is None ==> told == 0,
{
}

/// An article is changed if and only if one of its marks is named, whatever it is set to, and all
/// articles are marked as read of the feed where one is named, else of the folder, else of the
/// user.
pub proof fn marks_go_where_they_are_named(
    request: UpdateArticleRequest,
    changes: bool,
    query: MarkAllReadQuery,
    scope: MarkScope,
)
    requires
        call_ensures(UpdateArticleRequest::changes_something, (&request,), changes),
        call_ensures(MarkAllReadQuery::scope, (&query,), scope),
    ensures
        !changes <==> request.is_read is None && request.is_starred is None,
        query.feed_id matches Some(feed) ==> scope == MarkScope::Feed(feed),
        query.feed_id is None && query.folder_id is Some ==> scope == MarkScope::Folder(
            query.folder_id->0,
        ),
        query.feed_id is None && query.folder_id is None ==> scope == MarkScope::All,
{
}

/// A page has the first rows, and a place behind it where there are more: that of its last row.
pub proof fn cut_page_ends_where_the_next_begins(
    rows: Vec<ArticleListItem>,
    limit: i64,
    res: (Vec<ArticleListItem>, Option<ArticleCursor>),
)
    requires
        1 <= limit <= 100,
        call_ensures(cut_page, (rows, limit), res),
    ensures
        res.0@.len() <= limit && res.0@.len() <= rows@.len(),
        res.0@.len() == limit || res.0@.len() == rows@.len(),
        forall|i: int| 0 <= i < res.0@.len() ==> #[trigger] res.0@[i] == rows@[i],
        res.1 is Some <==> res.0@.len() < rows@.len(),
        res.1 matches Some(place) ==> place.id == res.0@.last().id && place.published_at
            == res.0@.last().published_at,
{
}

/// A batch without articles, or with too many, is told which of the two it is.
pub proof fn refused_batch_is_told_why(
    request: BatchUpdateRequest,
    res: ApiResult<()>,
)
    requires
        call_ensures(BatchUpdateRequest::check, (&request,), res),
    ensures
        res matches Err(e) ==> (e matches ApiError::Validation(message) && message@
            == if request.article_ids@.len() == 0 {
            "No article IDs provided"@
        } else {
            "Maximum 100 articles per batch"@
        }),
{
}

} // verus!
