use feedmind::error::ApiError;
use feedmind::members::read_members;
use feedmind::routes::articles::{
    cut_page, finish_page, ArticleListItem, BatchUpdateRequest, ListArticlesQuery,
    MarkAllReadQuery, MarkScope, UpdateArticleRequest,
};
use feedmind::routes::cursor::{place_from, ArticleCursor};
use feedmind::time::Timestamp;

fn query() -> ListArticlesQuery {
    ListArticlesQuery {
        feed_id: None,
        folder_id: None,
        status: None,
        search: None,
        categories: None,
        cursor: None,
        limit: None,
    }
}

fn item(id: u128, seconds: Option<i64>) -> ArticleListItem {
    ArticleListItem {
        id,
        feed_id: 1,
        feed_title: None,
        url: None,
        title: "Probe article".to_string(),
        author: None,
        summary: None,
        image_url: None,
        published_at: seconds.map(|seconds| Timestamp { seconds, nanos: 0 }),
        is_read: false,
        is_starred: false,
        word_count: None,
        categories: vec![],
    }
}

#[test]
fn a_cursor_survives_encoding_and_decoding() {
    let published = chrono::DateTime::parse_from_rfc3339("2026-03-04T05:06:07Z")
        .expect("fixture timestamp must parse");
    let cursor = ArticleCursor {
        published_at: Some(Timestamp {
            seconds: published.timestamp(),
            nanos: published.timestamp_subsec_nanos(),
        }),
        id: 0x1234_5678_9abc_def0_1234_5678_9abc_def0,
    };

    let token = cursor.encode().expect("a cursor must encode");
    assert!(
        !token.contains('=') && !token.contains('+') && !token.contains('/'),
        "the token must survive a query string unescaped: {token}"
    );
    assert_eq!(ArticleCursor::decode(&token).expect("a minted token must decode"), cursor);
}

#[test]
fn a_cursor_without_a_publication_date_survives_the_round_trip() {
    let cursor = ArticleCursor { published_at: None, id: 7 };

    let token = cursor.encode().expect("a cursor must encode");
    assert_eq!(ArticleCursor::decode(&token).expect("a minted token must decode"), cursor);
}

#[test]
fn a_mangled_cursor_is_refused_rather_than_reset_to_the_first_page() {
    for mangled in ["not-base64-!!", "", "aGVsbG8"] {
        let error = ArticleCursor::decode(mangled).expect_err("a mangled token must not decode");
        assert_eq!(
            error.into_envelope().status,
            422,
            "a bad cursor is a client error, not a silent reset"
        );
    }
}

#[test]
fn token_is_the_json_of_the_place_in_url_safe_base64() {
    let cursor = ArticleCursor {
        published_at: Some(Timestamp { seconds: 1_772_600_767, nanos: 250_000_000 }),
        id: 255,
    };
    let json = base64::Engine::decode(
        &base64::engine::general_purpose::URL_SAFE_NO_PAD,
        cursor.encode().unwrap(),
    )
    .unwrap();
    assert_eq!(
        String::from_utf8(json).unwrap(),
        "{\"p\":\"2026-03-04T05:06:07.250Z\",\"i\":\"00000000-0000-0000-0000-0000000000ff\"}"
    );
    assert_eq!(ArticleCursor::decode(&cursor.encode().unwrap()).unwrap(), cursor);
}

#[test]
fn cursors_of_every_time_survive_the_round_trip() {
    for (seconds, nanos) in [
        (253_402_300_800, 0),
        (-62_167_219_201, 999_999_999),
        (-8_334_601_228_800, 0),
        (8_210_266_876_799, 999_999_999),
        (8_210_266_876_799, 1_999_999_999),
        (1_483_228_799, 1_000_000_000),
        (1_483_228_799, 1_500_000_000),
        (59, 1_000_000_001),
    ] {
        let cursor = ArticleCursor { published_at: Some(Timestamp { seconds, nanos }), id: 3 };
        assert_eq!(ArticleCursor::decode(&cursor.encode().unwrap()).unwrap(), cursor);
    }
}

#[test]
fn a_cursor_can_be_an_array() {
    let id = "00000000-0000-0000-0000-000000000009";
    let token = |json: String| {
        base64::Engine::encode(&base64::engine::general_purpose::URL_SAFE_NO_PAD, json)
    };
    let place = ArticleCursor { published_at: None, id: 9 };
    assert_eq!(ArticleCursor::decode(&token(format!("[null,\"{id}\"]"))).unwrap(), place);
    assert_eq!(ArticleCursor::decode(&token(format!("{{\"i\":\"{id}\"}}"))).unwrap(), place);
    for json in [format!("[\"{id}\"]"), format!("[null,\"{id}\",1]"), "[]".to_string()] {
        assert!(ArticleCursor::decode(&token(json)).is_err());
    }
}

#[test]
fn a_cursor_names_each_part_once() {
    let id = "\"00000000-0000-0000-0000-000000000009\"";
    let decode = |json: &[u8]| {
        ArticleCursor::decode(&base64::Engine::encode(
            &base64::engine::general_purpose::URL_SAFE_NO_PAD,
            json,
        ))
    };
    let place = ArticleCursor { published_at: None, id: 9 };
    let deep = format!("{{\"x\":{}{},\"i\":{id}}}", "[".repeat(500), "]".repeat(500));
    let mut bytes = b"{\"x\":\"\xff\",\"i\":".to_vec();
    bytes.extend_from_slice(id.as_bytes());
    bytes.push(b'}');
    for json in [
        format!(" {{ \"p\" : null , \"i\" : {id} }} ").into_bytes(),
        format!("{{\"i\":{id},\"p\":null}}").into_bytes(),
        format!("{{\"\\u0069\":{id}}}").into_bytes(),
        format!("{{\"x\":1e999,\"x\":{{\"p\":1,\"i\":[\"}},\\\"\"]}},\"i\":{id}}}").into_bytes(),
        deep.into_bytes(),
        bytes,
    ] {
        assert_eq!(decode(&json).expect("a place"), place);
    }
    for json in [
        format!("{{\"p\":null,\"p\":null,\"i\":{id}}}"),
        format!("{{\"i\":{id},\"i\":{id}}}"),
        format!("{{\"i\":{id},\"\\u0069\":{id}}}"),
        "{\"p\":null}".to_string(),
        "{}".to_string(),
        format!("{{\"p\":1,\"i\":{id}}}"),
        "{\"p\":null,\"i\":9}".to_string(),
        format!("{{\"i\":{id},}}"),
        format!("{{\"i\":{id}}} x"),
    ] {
        assert!(
            matches!(decode(json.as_bytes()), Err(ApiError::Validation(m)) if m == "Malformed pagination cursor"),
            "{json}"
        );
    }
}

#[test]
fn parts_make_a_place() {
    let time = Timestamp { seconds: 5, nanos: 0 };
    assert_eq!(place_from(&vec![], &vec![Some(9)]), Some((None, 9)));
    assert_eq!(place_from(&vec![Some(None)], &vec![Some(9)]), Some((None, 9)));
    assert_eq!(place_from(&vec![Some(Some(time))], &vec![Some(9)]), Some((Some(time), 9)));
    assert_eq!(place_from(&vec![None], &vec![Some(9)]), None);
    assert_eq!(place_from(&vec![], &vec![]), None);
    assert_eq!(place_from(&vec![], &vec![None]), None);
    assert_eq!(place_from(&vec![], &vec![Some(9), Some(9)]), None);
    assert_eq!(place_from(&vec![Some(None), Some(None)], &vec![Some(9)]), None);
}

#[test]
fn members_are_cut_at_their_colons_and_commas() {
    let found = read_members(b" {\"a\": [1,{\"b\":2}] ,\"c\\\",:}\":\"x\\\\\"}");
    let texts: Vec<(String, String)> = found
        .into_iter()
        .map(|m| (String::from_utf8(m.name).unwrap(), String::from_utf8(m.value).unwrap()))
        .collect();
    assert_eq!(
        texts,
        vec![
            (" \"a\"".to_string(), " [1,{\"b\":2}] ".to_string()),
            ("\"c\\\",:}\"".to_string(), "\"x\\\\\"".to_string()),
        ]
    );
    assert!(read_members(b"{}").is_empty());
}

#[test]
fn search_is_refused() {
    let mut q = query();
    q.search = Some("x".to_string());
    match q.plan() {
        Err(ApiError::Validation(m)) => {
            assert!(m.starts_with("The `search` filter is not implemented on this endpoint."));
            assert!(m.ends_with("looks like a search result."));
        }
        other => panic!("unexpected {other:?}"),
    }
}

#[test]
fn plan_of_a_list() {
    let mut q = query();
    q.categories = Some(" rust , ,law,".to_string());
    q.feed_id = Some(3);
    q.folder_id = Some(4);
    q.limit = Some(0);
    let plan = q.plan().unwrap();
    assert_eq!(plan.limit, 1);
    assert_eq!(plan.probe_limit, 2);
    assert_eq!(plan.categories, Some(vec!["rust".to_string(), "law".to_string()]));
    assert_eq!(plan.feed_id, Some(3));
    assert_eq!(plan.folder_id, None);
    assert_eq!(plan.cursor, None);

    let mut q = query();
    q.categories = Some(" , ".to_string());
    q.folder_id = Some(4);
    q.limit = Some(1000);
    q.cursor = Some(ArticleCursor { published_at: None, id: 9 }.encode().unwrap());
    let plan = q.plan().unwrap();
    assert_eq!(plan.limit, 100);
    assert_eq!(plan.categories, None);
    assert_eq!(plan.folder_id, Some(4));
    assert_eq!(plan.cursor, Some(ArticleCursor { published_at: None, id: 9 }));
    assert_eq!(query().plan().unwrap().limit, 50);

    let mut q = query();
    q.cursor = Some("???".to_string());
    assert!(matches!(q.plan(), Err(ApiError::Validation(m)) if m == "Malformed pagination cursor"));
}

fn behind(cursor: &Option<ArticleCursor>, row: &ArticleListItem) -> bool {
    let key = |p: Option<Timestamp>, id: u128| (p.map(|t| (t.seconds, t.nanos)), id);
    match cursor {
        None => true,
        Some(c) => key(row.published_at, row.id) < key(c.published_at, c.id),
    }
}

fn page_from(
    rows: &[(u128, Option<i64>)],
    cursor: &Option<ArticleCursor>,
    limit: i64,
) -> (Vec<u128>, Option<String>, bool) {
    let fetched: Vec<ArticleListItem> = rows
        .iter()
        .map(|(id, at)| item(*id, *at))
        .filter(|row| behind(cursor, row))
        .take(limit as usize + 1)
        .collect();
    let page = finish_page(fetched, limit, rows.len() as i64).unwrap();
    assert_eq!(page.meta.has_more, page.meta.cursor.is_some());
    assert_eq!(page.meta.total, rows.len() as i64);
    (page.data.iter().map(|i| i.id).collect(), page.meta.cursor, page.meta.has_more)
}

#[test]
fn walk_reaches_every_article_once() {
    let rows = [
        (5, Some(90)),
        (9, Some(80)),
        (2, Some(80)),
        (7, Some(10)),
        (1, Some(-3)),
        (8, None),
        (3, None),
    ];
    for limit in 1..9 {
        let mut seen = vec![];
        let mut cursor = None;
        loop {
            let (ids, token, _) = page_from(&rows, &cursor, limit);
            seen.extend(ids);
            match token {
                Some(token) => cursor = Some(ArticleCursor::decode(&token).unwrap()),
                None => break,
            }
        }
        assert_eq!(seen, vec![5, 9, 2, 7, 1, 8, 3]);
    }
}

#[test]
fn addition_between_pages_skips_nothing() {
    let before = [(4, Some(40)), (3, Some(30)), (2, Some(20)), (1, Some(10))];
    let (first, token, _) = page_from(&before, &None, 2);
    assert_eq!(first, vec![4, 3]);
    let cursor = Some(ArticleCursor::decode(&token.unwrap()).unwrap());
    let after = [(5, Some(50)), (4, Some(40)), (3, Some(30)), (2, Some(20)), (1, Some(10))];
    let (second, token, _) = page_from(&after, &cursor, 2);
    assert_eq!(second, vec![2, 1]);
    assert_eq!(token, None);
}

#[test]
fn exact_fit_announces_no_successor() {
    let rows = [(3, Some(3)), (2, Some(2)), (1, Some(1))];
    let (ids, token, has_more) = page_from(&rows, &None, 3);
    assert_eq!(ids.len(), 3);
    assert_eq!(token, None);
    assert!(!has_more);
}

#[test]
fn update_that_changes_nothing() {
    assert!(!UpdateArticleRequest { is_read: None, is_starred: None }.changes_something());
    assert!(UpdateArticleRequest { is_read: None, is_starred: Some(false) }.changes_something());
}

#[test]
fn batches_are_bounded() {
    let batch = |n: usize| BatchUpdateRequest {
        article_ids: vec![1; n],
        is_read: Some(true),
        is_starred: None,
    };
    assert!(batch(1).check().is_ok());
    assert!(batch(100).check().is_ok());
    assert!(matches!(batch(0).check(), Err(ApiError::Validation(m)) if m == "No article IDs provided"));
    assert!(
        matches!(batch(101).check(), Err(ApiError::Validation(m)) if m == "Maximum 100 articles per batch")
    );
    assert_eq!(batch(1).updated(4, 9), 4);
    let mut both = batch(1);
    both.is_starred = Some(true);
    assert_eq!(both.updated(4, 9), 9);
    both.is_read = None;
    both.is_starred = None;
    assert_eq!(both.updated(4, 9), 0);
}

#[test]
fn marking_scope() {
    assert_eq!(
        MarkAllReadQuery { feed_id: Some(1), folder_id: Some(2) }.scope(),
        MarkScope::Feed(1)
    );
    assert_eq!(
        MarkAllReadQuery { feed_id: None, folder_id: Some(2) }.scope(),
        MarkScope::Folder(2)
    );
    assert_eq!(MarkAllReadQuery { feed_id: None, folder_id: None }.scope(), MarkScope::All);
}

#[test]
fn page_is_cut_at_its_limit() {
    let rows = || vec![item(3, Some(30)), item(2, Some(20)), item(1, None)];
    let (shown, next) = cut_page(rows(), 2);
    assert_eq!(shown.len(), 2);
    assert_eq!(
        next,
        Some(ArticleCursor { published_at: Some(Timestamp { seconds: 20, nanos: 0 }), id: 2 })
    );
    let (shown, next) = cut_page(rows(), 3);
    assert_eq!(shown.len(), 3);
    assert_eq!(next, None);
}

#[test]
fn plan_behind_a_given_place() {
    let mut asked = query();
    asked.categories = Some(" a ,, b".to_string());
    asked.limit = Some(0);
    let place = ArticleCursor { published_at: None, id: 4 };
    let plan = asked.plan_from(Some(place));
    assert_eq!(plan.cursor, Some(place));
    assert_eq!((plan.limit, plan.probe_limit), (1, 2));
    assert_eq!(plan.categories, Some(vec!["a".to_string(), "b".to_string()]));
}
