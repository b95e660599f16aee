use feedmind::error::ApiError;
use feedmind::routes::creation::{CreationEvent, CreationStep, FeedCreation};
use feedmind::routes::feeds::{
    article_guid, calculate_priority, discover_in_page,
    filter_articles_for_initial_import, generate_icon_url, list_meta, normalize_url, plan_feed,
    resolve_href, CreateFeedRequest, FeedItem, FeedMeta, FeedProbe, ListFeedsQuery,
    ProbeResponse, ProbeStep, UpdateFeedRequest,
};
use feedmind::routes::folders::{
    CreateFolderRequest, FolderCheck, ReorderFolderRequest, Shift, UpdateFolderRequest,
};
use feedmind::routes::tags::{
    check_tagging, check_untagging, validate_color, CreateTagRequest, UpdateTagRequest,
};
use feedmind::time::Timestamp;

const NOW: Timestamp = Timestamp { seconds: 1_772_600_767, nanos: 500 };
const DAY: i64 = 86_400;

fn item(guid: &str, age_seconds: Option<i64>) -> FeedItem {
    FeedItem {
        guid: guid.to_string(),
        url: None,
        title: guid.to_uppercase(),
        content: None,
        summary: None,
        author: None,
        published_at: age_seconds
            .map(|age| Timestamp { seconds: NOW.seconds - age, nanos: NOW.nanos }),
        categories: vec![],
    }
}

#[test]
fn addresses_get_a_scheme() {
    assert_eq!(normalize_url("  example.com/feed \n"), "https://example.com/feed");
    assert_eq!(normalize_url("http://example.com"), "http://example.com");
    assert_eq!(normalize_url("https://example.com"), "https://example.com");
    assert_eq!(normalize_url("HTTP://example.com"), "https://HTTP://example.com");
    assert_eq!(normalize_url(""), "https://");
    for typed in ["", " ", "ftp://x", "https:/x", "http://x"] {
        let address = normalize_url(typed);
        assert!(address.starts_with("http://") || address.starts_with("https://"));
    }
}

#[test]
fn normalizing_again_changes_nothing() {
    for typed in ["", " ", "example.com ", "\thttp://x", "https://", "ftp://x y"] {
        let address = normalize_url(typed);
        assert_eq!(normalize_url(&address), address);
        assert_eq!(address.trim(), address);
    }
}

#[test]
fn links_are_resolved() {
    let page = "https://example.com/blog/post";
    assert_eq!(resolve_href(page, "https://other.test/f"), "https://other.test/f");
    assert_eq!(resolve_href(page, "//cdn.test/f"), "https://cdn.test/f");
    assert_eq!(resolve_href(page, "/rss"), "https://example.com/rss");
    assert_eq!(resolve_href(page, "rss.xml"), "https://example.com/blog/rss.xml");
    assert_eq!(resolve_href("page", "rss.xml"), "page/rss.xml");
}

#[test]
fn links_of_a_page_without_a_path_stay_on_its_site() {
    let page = normalize_url("example.com");
    assert_eq!(resolve_href(&page, "feed.xml"), "https://example.com/feed.xml");
    assert_eq!(resolve_href(&page, "/feed.xml"), "https://example.com/feed.xml");
    assert_eq!(resolve_href("https://example.com/", "feed.xml"), "https://example.com/feed.xml");
    assert_eq!(resolve_href("https://example.com/a", "feed.xml"), "https://example.com/feed.xml");
    let link = r#"<link rel="alternate" type="application/rss+xml" href="feed.xml">"#;
    assert_eq!(
        discover_in_page("https://example.com", link).as_deref(),
        Some("https://example.com/feed.xml")
    );
    for href in ["feed.xml", "/feed", "?feed=rss", "httpd-news.xml", "http", "a//b", ""] {
        assert!(resolve_href(&page, href).starts_with("https://example.com/"));
    }
}

#[test]
fn links_are_resolved_without_query_and_fragment() {
    let asked = "https://example.com?next=/a/b#top";
    assert_eq!(resolve_href(asked, "feed.xml"), "https://example.com/feed.xml");
    assert_eq!(resolve_href(asked, "/feed.xml"), "https://example.com/feed.xml");
    let deep = "https://example.com/blog/post#a?b/c";
    assert_eq!(resolve_href(deep, "feed.xml"), "https://example.com/blog/feed.xml");
}

#[test]
fn only_a_scheme_makes_a_link_absolute() {
    let page = "https://example.com/blog/post";
    assert_eq!(resolve_href(page, "httpd-news.xml"), "https://example.com/blog/httpd-news.xml");
    assert_eq!(resolve_href(page, "http://other.test/f"), "http://other.test/f");
}

#[test]
fn pages_point_to_their_feed() {
    let page = "https://example.com/";
    let rss = r#"<head><link rel="alternate" type="application/rss+xml" href="/rss"></head>"#;
    assert_eq!(discover_in_page(page, rss).as_deref(), Some("https://example.com/rss"));
    let turned = r#"<link href="feed.xml" type="application/rss+xml">"#;
    assert_eq!(discover_in_page(page, turned).as_deref(), Some("https://example.com/feed.xml"));
    let both = r#"<link type="application/atom+xml" href="/atom"><link type="application/rss+xml" href="/rss">"#;
    assert_eq!(discover_in_page(page, both).as_deref(), Some("https://example.com/rss"));
    let atom = r#"<link type="application/atom+xml" href="/atom">"#;
    assert_eq!(discover_in_page(page, atom).as_deref(), Some("https://example.com/atom"));
    assert_eq!(discover_in_page(page, "<html></html>"), None);
}

#[test]
fn common_paths_are_tried_in_order() {
    let mut probe = FeedProbe::new("https://example.com//");
    let mut tried = Vec::new();
    loop {
        match probe.next_step() {
            ProbeStep::Try(url) => tried.push(url),
            ProbeStep::Found(_) => panic!("nothing was found"),
            ProbeStep::GiveUp(reason) => {
                assert_eq!(reason, "No RSS/Atom feed found on this page");
                break;
            }
        }
        probe.handle(&Some(ProbeResponse { success: true, content_type: "text/html".to_string() }));
    }
    assert_eq!(
        tried,
        vec![
            "https://example.com/feed",
            "https://example.com/feed.xml",
            "https://example.com/rss",
            "https://example.com/rss.xml",
            "https://example.com/atom.xml",
            "https://example.com/index.xml",
            "https://example.com/feeds/posts/default",
        ]
    );
}

#[test]
fn feed_is_found_by_its_type() {
    let mut probe = FeedProbe::new("https://example.com");
    probe.handle(&None);
    probe.handle(&Some(ProbeResponse {
        success: false,
        content_type: "application/xml".to_string(),
    }));
    probe.handle(&Some(ProbeResponse {
        success: true,
        content_type: "application/rss; charset=utf-8".to_string(),
    }));
    match probe.next_step() {
        ProbeStep::Found(url) => assert_eq!(url, "https://example.com/rss"),
        other => panic!("{other:?}"),
    }
}

#[test]
fn icons_are_named_by_their_host() {
    let site = "https://blog.example.com/path".to_string();
    assert_eq!(
        generate_icon_url(Some(&site)).as_deref(),
        Some("https://www.google.com/s2/favicons?domain=blog.example.com&sz=64")
    );
    assert_eq!(generate_icon_url(None), None);
}

#[test]
fn initial_import_is_bounded_and_newest_first() {
    let mut items = vec![
        item("old", Some(366 * DAY)),
        item("edge", Some(365 * DAY)),
        item("week", Some(7 * DAY)),
        item("undated", None),
        item("day", Some(DAY)),
        item("other day", Some(DAY)),
    ];
    let kept = filter_articles_for_initial_import(&items, NOW);
    let guids: Vec<&str> = kept.iter().map(|i| i.guid.as_str()).collect();
    assert_eq!(guids, vec!["undated", "day", "other day", "week"]);
    for n in 0..30 {
        items.push(item(&format!("n{n}"), Some(n)));
    }
    let kept = filter_articles_for_initial_import(&items, NOW);
    assert_eq!(kept.len(), 20);
    assert_eq!(kept[0].guid, "undated");
    assert_eq!(kept[1].guid, "n0");
    assert_eq!(kept[19].guid, "n18");
}

#[test]
fn priority_by_frequency() {
    let many = |n: usize| (0..n).map(|i| item(&format!("{i}"), Some(DAY))).collect::<Vec<_>>();
    assert_eq!(calculate_priority(&many(366), NOW), "hot");
    assert_eq!(calculate_priority(&many(365), NOW), "warm");
    assert_eq!(calculate_priority(&many(52), NOW), "warm");
    assert_eq!(calculate_priority(&many(51), NOW), "cold");
    let undated: Vec<FeedItem> = (0..100).map(|i| item(&format!("{i}"), None)).collect();
    assert_eq!(calculate_priority(&undated, NOW), "cold");
}

#[test]
fn new_feeds_are_planned() {
    let meta = FeedMeta {
        title: "Own title".to_string(),
        description: None,
        site_url: Some("http://example.com".to_string()),
        feed_type: "rss".to_string(),
    };
    let items = vec![item("a", Some(DAY)), item("b", Some(400 * DAY))];
    let feed = plan_feed("https://example.com/f", &None, &meta, &items, NOW);
    assert_eq!(feed.url, "https://example.com/f");
    assert_eq!(feed.title, "Own title");
    assert_eq!(feed.priority, "cold");
    assert_eq!(feed.article_count, 1);
    assert_eq!(feed.articles[0].guid, "a");
    assert_eq!(
        feed.icon_url.as_deref(),
        Some("https://www.google.com/s2/favicons?domain=example.com&sz=64")
    );
    let named = plan_feed("u", &Some("Mine".to_string()), &meta, &items, NOW);
    assert_eq!(named.title, "Mine");
}

#[test]
fn guids_are_never_missing() {
    let mut plain = item("g", None);
    assert_eq!(article_guid(&plain, 7), "g");
    plain.guid = String::new();
    assert_eq!(article_guid(&plain, 7), "00000000-0000-0000-0000-000000000007");
    plain.url = Some("https://e.test/a".to_string());
    assert_eq!(article_guid(&plain, 7), "https://e.test/a");
}

#[test]
fn addresses_have_a_length() {
    let request = |url: &str| CreateFeedRequest { url: url.to_string(), folder_id: None, title: None };
    assert!(!request("").has_valid_url());
    assert!(request("x").has_valid_url());
    assert!(request(&"é".repeat(2048)).has_valid_url());
    assert!(!request(&"é".repeat(2049)).has_valid_url());
}

fn counted(input: &str, count: i64, max: i64) -> FeedCreation {
    let creation = FeedCreation::new(input, max);
    assert!(matches!(creation.next_step(), CreationStep::Count));
    creation.handle(CreationEvent::Counted(count))
}

#[test]
fn feed_is_stored_from_the_link_of_a_page() {
    let creation = counted(" example.com ", 99, 100);
    match creation.next_step() {
        CreationStep::Fetch(url) => assert_eq!(url, "https://example.com"),
        other => panic!("{other:?}"),
    }
    let creation = creation.handle(CreationEvent::FetchFailed("no feed".to_string()));
    match creation.next_step() {
        CreationStep::Discover(url) => assert_eq!(url, "https://example.com"),
        other => panic!("{other:?}"),
    }
    let link = "https://example.com/rss";
    let creation = creation.handle(CreationEvent::Discovered(link.to_string()));
    match creation.next_step() {
        CreationStep::Fetch(url) => assert_eq!(url, link),
        other => panic!("{other:?}"),
    }
    let creation = creation.handle(CreationEvent::Fetched);
    match creation.next_step() {
        CreationStep::CheckKnown(url) => assert_eq!(url, link),
        other => panic!("{other:?}"),
    }
    match creation.handle(CreationEvent::Known(false)).next_step() {
        CreationStep::Store(url) => assert_eq!(url, link),
        other => panic!("{other:?}"),
    }
}

#[test]
fn refused_limit_asks_for_nothing() {
    for count in [100, 101] {
        match counted("a.test", count, 100).next_step() {
            CreationStep::Refuse(ApiError::Forbidden(message)) => assert_eq!(
                message,
                format!("Feed limit reached ({count}/100). Upgrade to add more feeds.")
            ),
            other => panic!("{other:?}"),
        }
    }
    assert!(matches!(counted("a.test", -1, 0).next_step(), CreationStep::Fetch(_)));
}

#[test]
fn known_feed_is_not_stored() {
    let ready = counted("a.test", 0, 1).handle(CreationEvent::Fetched);
    match ready.handle(CreationEvent::Known(true)).next_step() {
        CreationStep::Refuse(ApiError::Conflict(message)) => {
            assert_eq!(message, "Feed already exists")
        }
        other => panic!("{other:?}"),
    }
}

#[test]
fn failures_to_find_a_feed_say_why() {
    let page = counted("a.test", 0, 1).handle(CreationEvent::FetchFailed("x".to_string()));
    let lost = page.handle(CreationEvent::NotDiscovered("nothing there".to_string()));
    match lost.next_step() {
        CreationStep::Refuse(ApiError::Validation(message)) => {
            assert_eq!(message, "Could not find RSS feed: nothing there")
        }
        other => panic!("{other:?}"),
    }
    let page = counted("a.test", 0, 1).handle(CreationEvent::FetchFailed("x".to_string()));
    let link = page.handle(CreationEvent::Discovered("u".to_string()));
    match link.handle(CreationEvent::FetchFailed("timeout".to_string())).next_step() {
        CreationStep::Refuse(ApiError::Validation(message)) => {
            assert_eq!(message, "Failed to fetch discovered feed: timeout")
        }
        other => panic!("{other:?}"),
    }
}

#[test]
fn feed_lists_and_updates() {
    let query = |limit| ListFeedsQuery { folder_id: None, priority: None, cursor: None, limit };
    assert_eq!(query(None).page_limit(), 50);
    assert_eq!(query(Some(500)).page_limit(), 100);
    assert_eq!(query(Some(-3)).page_limit(), -3);
    assert!(list_meta(9, 5, 5).has_more);
    assert!(!list_meta(9, 4, 5).has_more);
    assert!(!list_meta(9, 0, -1).has_more);
    let update = |title: Option<String>, priority: Option<&str>| UpdateFeedRequest {
        title,
        folder_id: None,
        priority: priority.map(|p| p.to_string()),
        category_filter: None,
    };
    assert!(update(Some("é".repeat(500)), None).has_valid_title());
    assert!(!update(Some("é".repeat(501)), None).has_valid_title());
    assert!(update(None, Some("warm")).check_priority().is_ok());
    assert!(update(None, None).check_priority().is_ok());
    match update(None, Some("Hot")).check_priority() {
        Err(ApiError::Validation(message)) => {
            assert_eq!(message, "Invalid priority. Use: hot, warm, cold")
        }
        other => panic!("{other:?}"),
    }
}

fn change(name: Option<&str>, parent_id: Option<u128>) -> UpdateFolderRequest {
    UpdateFolderRequest { name: name.map(|n| n.to_string()), parent_id, position: None }
}

#[test]
fn folder_creation_is_checked() {
    let nested = CreateFolderRequest { name: "n".to_string(), parent_id: Some(1) };
    assert_eq!(nested.first_check(), FolderCheck::ParentExists);
    assert!(matches!(
        nested.next_check(FolderCheck::ParentExists, false),
        Err(ApiError::NotFound(_))
    ));
    assert!(matches!(
        nested.next_check(FolderCheck::ParentExists, true),
        Ok(FolderCheck::NameTaken)
    ));
    assert!(matches!(nested.next_check(FolderCheck::NameTaken, true), Err(ApiError::Conflict(_))));
    assert!(matches!(nested.next_check(FolderCheck::NameTaken, false), Ok(FolderCheck::Ready)));
    let top = CreateFolderRequest { name: String::new(), parent_id: None };
    assert_eq!(top.first_check(), FolderCheck::NameTaken);
    assert!(!top.has_valid_name());
    assert!(nested.has_valid_name());
}

#[test]
fn folders_never_go_below_themselves() {
    let own = change(None, Some(5));
    match own.next_check(5, FolderCheck::Exists, true) {
        Err(ApiError::Validation(message)) => {
            assert_eq!(message, "Cannot set folder as its own parent")
        }
        other => panic!("{other:?}"),
    }
    let moved = change(Some("n"), Some(6));
    assert!(matches!(
        moved.next_check(5, FolderCheck::Exists, true),
        Ok(FolderCheck::ParentExists)
    ));
    assert!(matches!(
        moved.next_check(5, FolderCheck::ParentExists, true),
        Ok(FolderCheck::ParentIsDescendant)
    ));
    match moved.next_check(5, FolderCheck::ParentIsDescendant, true) {
        Err(ApiError::Validation(message)) => {
            assert_eq!(message, "Cannot move folder under its own descendant")
        }
        other => panic!("{other:?}"),
    }
    assert!(matches!(
        moved.next_check(5, FolderCheck::ParentIsDescendant, false),
        Ok(FolderCheck::NameTaken)
    ));
    assert!(matches!(
        change(None, None).next_check(5, FolderCheck::Exists, true),
        Ok(FolderCheck::Ready)
    ));
    assert!(matches!(
        change(None, None).next_check(5, FolderCheck::Exists, false),
        Err(ApiError::NotFound(_))
    ));
    assert!(matches!(
        moved.next_check(5, FolderCheck::ParentExists, false),
        Err(ApiError::NotFound(_))
    ));
    assert!(matches!(
        moved.next_check(5, FolderCheck::NameTaken, true),
        Err(ApiError::Conflict(_))
    ));
    assert!(!change(Some(""), None).has_valid_name());
    assert!(change(None, None).has_valid_name());
}

#[test]
fn moving_a_folder_makes_room() {
    let to = |position| ReorderFolderRequest { position };
    assert_eq!(to(3).shift(3), Shift::Nothing);
    assert_eq!(to(1).shift(3), Shift::Down { from: 1, before: 3 });
    assert_eq!(to(4).shift(2), Shift::Up { behind: 2, to: 4 });
}

#[test]
fn colors_are_checked() {
    let check = |color: &str| validate_color(Some(&color.to_string()));
    assert!(validate_color(None).is_ok());
    assert!(check("#FF5733").is_ok());
    assert!(check("#ff57aB").is_ok());
    for bad in ["FF5733", "#FF573", "#FF57333", "#GG5733", "#FF5733\n", ""] {
        match check(bad) {
            Err(ApiError::Validation(message)) => assert_eq!(
                message,
                "Invalid hex color format. Use #RRGGBB format (e.g., #FF5733)"
            ),
            other => panic!("{bad:?}: {other:?}"),
        }
    }
}

#[test]
fn tags_are_checked() {
    assert!(CreateTagRequest { name: "é".repeat(100), color: None }.has_valid_name());
    assert!(!CreateTagRequest { name: "é".repeat(101), color: None }.has_valid_name());
    let renamed = UpdateTagRequest { name: Some("n".to_string()), color: None };
    let colored = UpdateTagRequest { name: None, color: None };
    assert!(matches!(renamed.check(false, false), Err(ApiError::NotFound(_))));
    assert!(matches!(renamed.check(true, true), Err(ApiError::Conflict(_))));
    assert!(renamed.check(true, false).is_ok());
    assert!(colored.check(true, true).is_ok());
    assert!(check_tagging(true, true).is_ok());
    assert!(matches!(check_tagging(false, true), Err(ApiError::NotFound(m)) if m == "Article not found"));
    assert!(matches!(check_tagging(true, false), Err(ApiError::NotFound(m)) if m == "Tag not found"));
    assert!(check_untagging(true, 1).is_ok());
    assert!(matches!(check_untagging(false, 1), Err(ApiError::NotFound(m)) if m == "Article not found"));
    assert!(
        matches!(check_untagging(true, 0), Err(ApiError::NotFound(m)) if m == "Tag not associated with article")
    );
}
