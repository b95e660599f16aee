//! Why going from page to page reaches every article once.

use vstd::prelude::*;

use crate::routes::articles;
use crate::routes::articles::ArticleListItem;
use crate::routes::cursor::ArticleCursor;
use crate::time;

verus! {

/// Whether one place comes before another in the order of a list: newest first, those
/// without a time last, and among equal ones the higher id first.
pub open spec fn sorts_before(a: ArticleCursor, b: ArticleCursor) -> bool {
    match (a.published_at, b.published_at) {
        (Some(x), Some(y)) => time::is_earlier(y, x) || (x == y && a.id > b.id),
        (Some(_), None) => true,
        (None, Some(_)) => false,
        (None, None) => a.id > b.id,
    }
}

/// Whether the database finds an article behind a place. Without a place it finds every one.
/// Behind a place with a time it finds every article without one, and those with a time whose
/// time and id are lower. Behind a place without a time only the id counts.
pub open spec fn admits(cursor: Option<ArticleCursor>, row: ArticleCursor) -> bool {
    match cursor {
        None => true,
        Some(c) => match c.published_at {
            Some(at) => match row.published_at {
                None => true,
                Some(row_at) => time::is_earlier(row_at, at) || (row_at == at && row.id < c.id),
            },
            None => row.published_at is None && row.id < c.id,
        },
    }
}

/// The database finds an article behind a place if and only if the article comes after it.
pub proof fn what_is_found_is_what_follows(a: ArticleCursor, b: ArticleCursor)
    ensures
        admits(Some(a), b) == sorts_before(a, b),
{
}

/// The order of a list is strict and total: no place comes before itself, of two places with
/// different ids one comes before the other, and not both, and what comes before a place comes
/// before everything behind it.
pub proof fn order_is_total(a: ArticleCursor, b: ArticleCursor, c: ArticleCursor)
    ensures
        !sorts_before(a, a),
        a.id != b.id ==> sorts_before(a, b) || sorts_before(b, a),
        !(sorts_before(a, b) && sorts_before(b, a)),
        sorts_before(a, b) && sorts_before(b, c) ==> sorts_before(a, c),
{
}

/// Whether articles stand in the order of a list.
pub open spec fn is_sorted(all: Seq<ArticleListItem>) -> bool {
    forall|i: int, j: int|
        0 <= i < j < all.len() ==> sorts_before(
            articles::place_of(#[trigger] all[i]),
            articles::place_of(#[trigger] all[j]),
        )
}

/// The test for an article behind a place.
pub open spec fn is_behind(cursor: Option<ArticleCursor>) -> spec_fn(ArticleListItem) -> bool {
    |row: ArticleListItem| admits(cursor, articles::place_of(row))
}

/// The rows that the database returns: of those behind a place, in their order, at most
/// `limit`.
pub open spec fn fetched(
    all: Seq<ArticleListItem>,
    cursor: Option<ArticleCursor>,
    limit: nat,
) -> Seq<ArticleListItem> {
    let rows = all.filter(is_behind(cursor));
    if rows.len() <= limit {
        rows
    } else {
        rows.take(limit as int)
    }
}

/// What a caller has seen who starts behind a place and follows the tokens for at most `n`
/// pages.
pub open spec fn walked(
    all: Seq<ArticleListItem>,
    cursor: Option<ArticleCursor>,
    limit: nat,
    n: nat,
) -> Seq<ArticleListItem>
    decreases n,
{
    if n == 0 {
        Seq::empty()
    } else {
        let rows = fetched(all, cursor, limit + 1);
        if rows.len() > limit {
            rows.take(limit as int) + walked(
                all,
                Some(articles::place_of(rows[limit - 1])),
                limit,
                (n - 1) as nat,
            )
        } else {
            rows
        }
    }
}

proof fn lemma_filter_suffix(all: Seq<ArticleListItem>, test: spec_fn(ArticleListItem) -> bool, k: int)
    requires
        0 <= k <= all.len(),
        forall|i: int| 0 <= i < k ==> !test(#[trigger] all[i]),
        forall|i: int| k <= i < all.len() ==> test(#[trigger] all[i]),
    ensures
        all.filter(test) == all.skip(k),
    decreases all.len(),
{
    reveal(Seq::filter);
    if all.len() == 0 {
        assert(all.filter(test) =~= all.skip(k));
    } else {
        let shorter = all.drop_last();
        assert forall|i: int| 0 <= i < shorter.len() implies shorter[i] == all[i] by {}
        if k == all.len() {
            assert(!test(all[all.len() - 1]));
            lemma_filter_suffix(shorter, test, k - 1);
            assert(shorter.skip(k - 1) =~= all.skip(k));
        } else {
            assert(test(all[all.len() - 1]));
            lemma_filter_suffix(shorter, test, k);
            assert(shorter.skip(k).push(all.last()) =~= all.skip(k));
        }
    }
}

/// The articles behind a place are the tail of the list.
proof fn lemma_tail(all: Seq<ArticleListItem>, cursor: Option<ArticleCursor>) -> (k: int)
    requires
        is_sorted(all),
    ensures
        0 <= k <= all.len(),
        forall|i: int| 0 <= i < k ==> !is_behind(cursor)(#[trigger] all[i]),
        forall|i: int| k <= i < all.len() ==> is_behind(cursor)(#[trigger] all[i]),
        all.filter(is_behind(cursor)) == all.skip(k),
    decreases all.len(),
{
    let k: int = if all.len() == 0 {
        0
    } else {
        let shorter = all.drop_last();
        let last = all.len() - 1;
        assert forall|i: int, j: int| 0 <= i < j < shorter.len() implies sorts_before(
            articles::place_of(#[trigger] shorter[i]),
            articles::place_of(#[trigger] shorter[j]),
        ) by {
            assert(shorter[i] == all[i] && shorter[j] == all[j]);
        }
        let m = lemma_tail(shorter, cursor);
        assert forall|i: int| 0 <= i < shorter.len() implies shorter[i] == all[i] by {}
        if m < shorter.len() {
            assert(is_behind(cursor)(shorter[m]));
            assert(all[m] == shorter[m]);
            assert(sorts_before(articles::place_of(all[m]), articles::place_of(all[last])));
            m
        } else if is_behind(cursor)(all[last]) {
            last
        } else {
            last + 1
        }
    };
    assert forall|i: int| 0 <= i < k implies !is_behind(cursor)(#[trigger] all[i]) by {
        if i < all.len() - 1 {
            assert(all.drop_last()[i] == all[i]);
        }
    }
    assert forall|i: int| k <= i < all.len() implies is_behind(cursor)(#[trigger] all[i]) by {
        if i < all.len() - 1 {
            assert(all.drop_last()[i] == all[i]);
        }
    }
    lemma_filter_suffix(all, is_behind(cursor), k);
    k
}

/// What follows the last article of a page is what the next page starts with.
proof fn lemma_next_tail(all: Seq<ArticleListItem>, k: int)
    requires
        is_sorted(all),
        0 <= k < all.len(),
    ensures
        all.filter(is_behind(Some(articles::place_of(all[k])))) == all.skip(k + 1),
{
    let cursor = Some(articles::place_of(all[k]));
    assert forall|i: int| 0 <= i < k + 1 implies !is_behind(cursor)(#[trigger] all[i]) by {
        if i < k {
            assert(sorts_before(articles::place_of(all[i]), articles::place_of(all[k])));
        }
    }
    assert forall|i: int| k + 1 <= i < all.len() implies is_behind(cursor)(#[trigger] all[i]) by {
        assert(sorts_before(articles::place_of(all[k]), articles::place_of(all[i])));
    }
    lemma_filter_suffix(all, is_behind(cursor), k + 1);
}

/// Following the tokens from any place, whatever the length of a page, a caller sees every
/// article behind that place, in order, without a gap and without a repetition.
pub proof fn walk_sees_everything_behind(
    all: Seq<ArticleListItem>,
    cursor: Option<ArticleCursor>,
    limit: nat,
    n: nat,
)
    requires
        is_sorted(all),
        limit >= 1,
        n > all.filter(is_behind(cursor)).len(),
    ensures
        walked(all, cursor, limit, n) == all.filter(is_behind(cursor)),
    decreases n,
{
    let k = lemma_tail(all, cursor);
    let behind = all.skip(k);
    let rows = fetched(all, cursor, limit + 1);
    if rows.len() > limit {
        assert(rows[limit - 1] == all[k + limit - 1]);
        lemma_next_tail(all, k + limit - 1);
        let next = Some(articles::place_of(rows[limit - 1]));
        assert(all.filter(is_behind(next)) == all.skip(k + limit));
        walk_sees_everything_behind(all, next, limit, (n - 1) as nat);
        assert(rows.take(limit as int) =~= behind.take(limit as int));
        assert(behind.take(limit as int) + all.skip(k + limit) =~= behind);
    }
}

/// Following the tokens from the start, a caller sees the whole list.
pub proof fn walk_sees_the_whole_list(all: Seq<ArticleListItem>, limit: nat, n: nat)
    requires
        is_sorted(all),
        limit >= 1,
        n > all.len(),
    ensures
        walked(all, None, limit, n) == all,
{
    lemma_filter_suffix(all, is_behind(None), 0);
    assert(all.skip(0) =~= all);
    walk_sees_everything_behind(all, None, limit, n);
}

/// Articles that are added between two pages push nothing out: the rest of the walk shows
/// every article that was behind the place before, and none that had been shown.
pub proof fn additions_skip_and_repeat_nothing(
    before: Seq<ArticleListItem>,
    after: Seq<ArticleListItem>,
    k: int,
    limit: nat,
    n: nat,
)
    requires
        is_sorted(before),
        is_sorted(after),
        forall|i: int| 0 <= i < before.len() ==> after.contains(#[trigger] before[i]),
        0 <= k < before.len(),
        limit >= 1,
        n > after.len(),
    ensures
        ({
            let rest = walked(after, Some(articles::place_of(before[k])), limit, n);
            &&& forall|i: int| k < i < before.len() ==> rest.contains(#[trigger] before[i])
            &&& forall|i: int| 0 <= i <= k ==> !rest.contains(#[trigger] before[i])
        }),
{
    let place = articles::place_of(before[k]);
    let test = is_behind(Some(place));
    after.lemma_filter_len(test);
    walk_sees_everything_behind(after, Some(place), limit, n);
    let rest = walked(after, Some(place), limit, n);
    assert forall|i: int| k < i < before.len() implies rest.contains(#[trigger] before[i]) by {
        assert(sorts_before(place, articles::place_of(before[i])));
        assert(after.contains(before[i]));
        let m = choose|m: int| 0 <= m < after.len() && after[m] == before[i];
        after.lemma_filter_contains(test, m);
    }
    assert forall|i: int| 0 <= i <= k implies !rest.contains(#[trigger] before[i]) by {
        if rest.contains(before[i]) {
            let m = choose|m: int| 0 <= m < rest.len() && rest[m] == before[i];
            crate::lists::lemma_filter_member(after, test, m);
            if i < k {
                assert(sorts_before(articles::place_of(before[i]), place));
            }
        }
    }
}

/// A list shows the newest first and those without a time last, and of two from the same time
/// the one with the higher id.
pub proof fn newest_come_first(a: ArticleCursor, b: ArticleCursor)
    ensures
        a.published_at is Some && b.published_at is Some ==> {
            let x = a.published_at->0;
            let y = b.published_at->0;
            &&& x.seconds > y.seconds ==> sorts_before(a, b) && !admits(Some(b), a)
            &&& x.seconds == y.seconds && x.nanos > y.nanos ==> sorts_before(a, b)
            &&& x == y ==> (sorts_before(a, b) <==> a.id > b.id)
        },
        a.published_at is Some && b.published_at is None ==> sorts_before(a, b) && admits(
            Some(a),
            b,
        ) && !admits(Some(b), a),
        a.published_at is None && b.published_at is None ==> (admits(Some(a), b) <==> a.id > b.id),
        admits(None, a),
{
}

} // verus!
