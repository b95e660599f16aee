use feedmind::opml::document::{flatten_outlines, OpmlDocument, OpmlOutline};
use feedmind::opml::exporter::OpmlExporter;
use feedmind::opml::import::{
    check_import_limit, import_content, plan_outline, ImportOpmlJsonRequest, ImportOpmlResponse,
    ImportStep,
};
use feedmind::opml::import::ImportResult;
use feedmind::opml::run::{ImportAction, ImportEvent, ImportRun};
use feedmind::opml::tree::{export_by_folder, export_document, FeedForExport, FolderForExport};
use feedmind::error::ApiError;
use feedmind::time::Timestamp;

const NOW: Timestamp = Timestamp { seconds: 1_772_600_767, nanos: 250_000_000 };

fn feed(title: &str, url: &str) -> OpmlOutline {
    OpmlOutline::feed(title.to_string(), url.to_string(), None)
}

#[test]
fn test_export_structure() {
    let mut doc = OpmlDocument::new(Some("Test Export".to_string()));

    let mut folder = OpmlOutline::folder("Tech".to_string());
    folder.children.push(OpmlOutline::feed(
        "Hacker News".to_string(),
        "https://news.ycombinator.com/rss".to_string(),
        Some("https://news.ycombinator.com".to_string()),
    ));
    doc.outlines.push(folder);
    doc.outlines.push(OpmlOutline::feed(
        "Example".to_string(),
        "https://example.com/feed".to_string(),
        None,
    ));

    let exported = OpmlExporter::export(&doc);

    assert!(exported.contains("<opml version=\"2.0\">"));
    assert!(exported.contains("<title>Test Export</title>"));
    assert!(exported.contains("text=\"Tech\""));
    assert!(exported.contains("text=\"Hacker News\""));
    assert!(exported.contains("xmlUrl=\"https://news.ycombinator.com/rss\""));
    assert!(exported.contains("text=\"Example\""));
}

#[test]
fn test_escape_xml() {
    let doc = OpmlDocument {
        title: Some("Test & <Special> \"Characters\"".to_string()),
        date_created: None,
        owner_email: None,
        outlines: vec![],
    };

    let exported = OpmlExporter::export(&doc);
    assert!(exported.contains("Test &amp; &lt;Special&gt; &quot;Characters&quot;"));
}

#[test]
fn whole_document_line_by_line() {
    let mut doc = OpmlDocument::new(Some("T".to_string()));
    doc.owner_email = Some("a@b.test".to_string());
    let mut folder = OpmlOutline::folder("F'1".to_string());
    let mut inner = feed("One", "https://one.test/?a=1&b=2");
    inner.title = Some("Other".to_string());
    inner.description = Some("<b>".to_string());
    folder.children.push(inner);
    doc.outlines.push(folder);
    assert_eq!(
        OpmlExporter::export(&doc),
        "<?xml version=\"1.0\" encoding=\"UTF-8\"?>\n\
         <opml version=\"2.0\">\n  <head>\n    <title>T</title>\n    \
         <ownerEmail>a@b.test</ownerEmail>\n  </head>\n  <body>\n    \
         <outline text=\"F&apos;1\">\n      \
         <outline text=\"One\" title=\"Other\" type=\"rss\" \
         xmlUrl=\"https://one.test/?a=1&amp;b=2\" description=\"&lt;b&gt;\"/>\n    \
         </outline>\n  </body>\n</opml>\n"
    );
}

#[test]
fn escaped_text_holds_no_markup() {
    assert_eq!(OpmlExporter::escape_xml("a&amp;<'\">"), "a&amp;amp;&lt;&apos;&quot;&gt;");
    assert_eq!(OpmlExporter::escape_xml("plain"), "plain");
}

#[test]
fn feeds_are_flattened_with_the_innermost_folder() {
    let mut outer = OpmlOutline::folder("Outer".to_string());
    outer.children.push(feed("A", "u:a"));
    let mut inner = OpmlOutline::folder("Inner".to_string());
    let mut b = feed("B", "u:b");
    b.title = None;
    b.children.push(feed("C", "u:c"));
    inner.children.push(b);
    outer.children.push(inner);
    let doc = OpmlDocument {
        title: None,
        date_created: None,
        owner_email: None,
        outlines: vec![feed("Top", "u:t"), outer],
    };
    let flat = flatten_outlines(&doc.outlines, None);
    let got: Vec<(String, String, Option<String>)> =
        flat.into_iter().map(|f| (f.title, f.xml_url, f.folder)).collect();
    assert_eq!(
        got,
        vec![
            ("Top".to_string(), "u:t".to_string(), None),
            ("A".to_string(), "u:a".to_string(), Some("Outer".to_string())),
            ("B".to_string(), "u:b".to_string(), Some("Inner".to_string())),
            ("C".to_string(), "u:c".to_string(), Some("Inner".to_string())),
        ]
    );
    assert_eq!(doc.feed_count(), 4);
    assert_eq!(doc.folder_count(), 2);
}

fn folder_row(id: u128, name: &str, parent_id: Option<u128>) -> FolderForExport {
    FolderForExport { id, name: name.to_string(), parent_id }
}

fn feed_row(id: u128, title: &str, folder_id: Option<u128>) -> FeedForExport {
    FeedForExport {
        id,
        url: format!("https://{title}.test"),
        title: title.to_string(),
        site_url: None,
        folder_id,
    }
}

#[test]
fn export_nests_folders_and_keeps_every_feed() {
    let folders = vec![
        folder_row(1, "root", None),
        folder_row(2, "empty", None),
        folder_row(3, "child", Some(1)),
        folder_row(4, "grandchild", Some(3)),
        folder_row(5, "circle a", Some(6)),
        folder_row(6, "circle b", Some(5)),
    ];
    let feeds = vec![
        feed_row(10, "loose", None),
        feed_row(11, "deep", Some(4)),
        feed_row(12, "orphan", Some(99)),
        feed_row(13, "top", Some(1)),
    ];
    let doc = export_document("a@b.test", NOW, &folders, &feeds);
    assert_eq!(doc.title.as_deref(), Some("FeedMind Export"));
    assert_eq!(doc.owner_email.as_deref(), Some("a@b.test"));
    assert_eq!(doc.date_created.as_deref(), Some("Wed, 4 Mar 2026 05:06:07 +0000"));
    let names: Vec<&str> = doc.outlines.iter().map(|o| o.text.as_str()).collect();
    assert_eq!(names, vec!["loose", "orphan", "root"]);
    let root = &doc.outlines[2];
    assert_eq!(root.children[0].text, "top");
    assert_eq!(root.children[1].text, "child");
    assert_eq!(root.children[1].children[0].text, "grandchild");
    assert_eq!(root.children[1].children[0].children[0].text, "deep");
    assert_eq!(doc.feed_count(), 4);
}

#[test]
fn export_by_folder_is_flat() {
    let folders = vec![folder_row(1, "A", None), folder_row(2, "B", Some(1))];
    let feeds = vec![
        feed_row(10, "x", Some(2)),
        feed_row(11, "y", None),
        feed_row(12, "lost", Some(77)),
    ];
    let doc = export_by_folder("a@b.test", NOW, &folders, &feeds);
    assert_eq!(doc.title.as_deref(), Some("FeedMind export for a@b.test"));
    assert_eq!(doc.date_created.as_deref(), Some("Wed, 4 Mar 2026 05:06:07 +0000"));
    let names: Vec<&str> = doc.outlines.iter().map(|o| o.text.as_str()).collect();
    assert_eq!(names, vec!["y", "B"]);
    assert_eq!(doc.outlines[1].children.len(), 1);
    assert_eq!(doc.outlines[1].children[0].text, "x");
}

#[test]
fn import_content_decodes_json_bodies() {
    let request = Some(ImportOpmlJsonRequest { content: "aGVsbG8=".to_string() });
    assert_eq!(import_content(&request, vec![1]).unwrap(), b"hello".to_vec());
    assert_eq!(import_content(&None, vec![60, 62]).unwrap(), vec![60, 62]);
    let bad = Some(ImportOpmlJsonRequest { content: "a*b".to_string() });
    match import_content(&bad, vec![]) {
        Err(ApiError::BadRequest(m)) => assert!(m.starts_with("Invalid base64: ")),
        other => panic!("unexpected {other:?}"),
    }
}

#[test]
fn import_limit_counts_what_is_there() {
    assert!(check_import_limit(90, 10, 100).is_ok());
    match check_import_limit(90, 11, 100) {
        Err(ApiError::Forbidden(m)) => assert_eq!(
            m,
            "Import would exceed feed limit (90 existing + 11 new > 100 max). Upgrade or import \
             fewer feeds."
        ),
        other => panic!("unexpected {other:?}"),
    }
    assert!(check_import_limit(i64::MAX, i64::MAX, i64::MAX).is_err());
}

fn sample_outline() -> OpmlOutline {
    let mut folder = OpmlOutline::folder("News".to_string());
    folder.children.push(feed("A", "u:a"));
    folder.children.push(OpmlOutline::folder("nothing in it".to_string()));
    let mut inner = OpmlOutline::folder("Tech".to_string());
    inner.children.push(feed("B", "u:b"));
    folder.children.push(inner);
    folder
}

#[test]
fn plan_puts_folders_before_what_is_in_them() {
    let plan = plan_outline(&sample_outline());
    assert_eq!(plan.len(), 4);
    assert!(matches!(&plan[0], ImportStep::Folder { name, parent: None } if name == "News"));
    assert!(matches!(&plan[1], ImportStep::Feed { url, parent: Some(0), .. } if url == "u:a"));
    assert!(matches!(&plan[2], ImportStep::Folder { name, parent: Some(0) } if name == "Tech"));
    assert!(matches!(&plan[3], ImportStep::Feed { url, parent: Some(2), .. } if url == "u:b"));
}

#[test]
fn import_run_accounts_for_every_feed() {
    let mut run = ImportRun::new(plan_outline(&sample_outline()), None);
    assert!(matches!(
        run.next_action(),
        ImportAction::FindFolder { name, parent_id: None } if name == "News"
    ));
    run.handle(ImportEvent::FolderFound(Some(7)));
    assert!(matches!(run.next_action(), ImportAction::CheckFeed { url } if url == "u:a"));
    run.handle(ImportEvent::FeedExists(true));
    assert!(matches!(
        run.next_action(),
        ImportAction::FindFolder { name, parent_id: Some(7) } if name == "Tech"
    ));
    run.handle(ImportEvent::FolderFound(None));
    assert!(matches!(run.next_action(), ImportAction::NextPosition { parent_id: Some(7) }));
    run.handle(ImportEvent::Position(3));
    assert!(matches!(
        run.next_action(),
        ImportAction::CreateFolder { parent_id: Some(7), position: 3, .. }
    ));
    run.handle(ImportEvent::FolderCreated(8));
    run.handle(ImportEvent::FeedExists(false));
    assert!(matches!(
        run.next_action(),
        ImportAction::InsertFeed { folder_id: Some(8), .. }
    ));
    run.handle(ImportEvent::FeedRefused("no".to_string()));
    assert!(matches!(run.next_action(), ImportAction::Finished));

    let mut total = ImportResult::empty();
    total.absorb(run.into_result());
    total.note_failure("Broken", "database".to_string());
    let response = ImportOpmlResponse { data: total };
    assert_eq!(response.data.feeds_imported, 0);
    assert_eq!(response.data.feeds_skipped, 1);
    assert_eq!(response.data.folders_created, 1);
    assert_eq!(response.data.errors[0].url, "u:b");
    assert_eq!(response.data.errors[0].reason, "no");
    assert_eq!(response.data.errors[1].url, "Broken");
}

type Feeds = Vec<(String, Option<u128>)>;
type Folders = Vec<(u128, String, Option<u128>, i32)>;

fn import_into(
    outline: &OpmlOutline,
    parent_folder_id: Option<u128>,
    feeds: &mut Feeds,
    folders: &mut Folders,
) -> ImportResult {
    let mut run = ImportRun::new(plan_outline(outline), parent_folder_id);
    loop {
        let event = match run.next_action() {
            ImportAction::CheckFeed { url } => {
                ImportEvent::FeedExists(feeds.iter().any(|f| f.0 == url))
            }
            ImportAction::InsertFeed { url, folder_id, .. } => {
                feeds.push((url, folder_id));
                ImportEvent::FeedInserted
            }
            ImportAction::FindFolder { name, parent_id } => ImportEvent::FolderFound(
                folders.iter().find(|f| f.1 == name && f.2 == parent_id).map(|f| f.0),
            ),
            ImportAction::NextPosition { parent_id } => ImportEvent::Position(
                folders.iter().filter(|f| f.2 == parent_id).map(|f| f.3 + 1).max().unwrap_or(0),
            ),
            ImportAction::CreateFolder { name, parent_id, position } => {
                let id = folders.len() as u128 + 100;
                folders.push((id, name, parent_id, position));
                ImportEvent::FolderCreated(id)
            }
            ImportAction::Finished => return run.into_result(),
        };
        run.handle(event);
    }
}

#[test]
fn second_import_adds_nothing() {
    let mut outline = sample_outline();
    outline.children.push(feed("A again", "u:a"));
    let mut feeds: Feeds = vec![("u:b".to_string(), None)];
    let mut folders: Folders = vec![(1, "Tech".to_string(), None, 4)];
    let first = import_into(&outline, None, &mut feeds, &mut folders);
    assert_eq!((first.feeds_imported, first.feeds_skipped, first.folders_created), (1, 2, 2));
    assert_eq!(feeds, vec![("u:b".to_string(), None), ("u:a".to_string(), Some(101))]);
    assert_eq!(folders[1], (101, "News".to_string(), None, 5));
    assert_eq!(folders[2], (102, "Tech".to_string(), Some(101), 0));

    let (stored_feeds, stored_folders) = (feeds.clone(), folders.clone());
    let again = import_into(&outline, None, &mut feeds, &mut folders);
    assert_eq!((again.feeds_imported, again.feeds_skipped, again.folders_created), (0, 3, 0));
    assert!(again.errors.is_empty());
    assert_eq!(feeds, stored_feeds);
    assert_eq!(folders, stored_folders);
}

#[test]
fn second_import_into_a_folder_adds_nothing() {
    let outline = sample_outline();
    let mut feeds: Feeds = vec![];
    let mut folders: Folders = vec![
        (1, "Tech".to_string(), None, 4),
        (2, "Twice".to_string(), None, 5),
        (3, "Twice".to_string(), None, 6),
    ];
    let first = import_into(&outline, Some(1), &mut feeds, &mut folders);
    assert_eq!((first.feeds_imported, first.feeds_skipped, first.folders_created), (2, 0, 2));
    assert_eq!(folders[3], (103, "News".to_string(), Some(1), 0));
    let (stored_feeds, stored_folders) = (feeds.clone(), folders.clone());
    let again = import_into(&outline, Some(1), &mut feeds, &mut folders);
    assert_eq!((again.feeds_imported, again.feeds_skipped, again.folders_created), (0, 2, 0));
    assert_eq!((feeds, folders), (stored_feeds, stored_folders));
    let loose = import_into(&feed("C", "u:c"), Some(1), &mut vec![], &mut vec![]);
    assert_eq!(loose.feeds_imported, 1);
}

#[test]
fn escaping_goes_piece_by_piece() {
    let (a, b) = ("a<&", "\"'>b");
    let whole = OpmlExporter::escape_xml(&format!("{a}{b}"));
    assert_eq!(whole, "a&lt;&amp;&quot;&apos;&gt;b");
    assert_eq!(whole, format!("{}{}", OpmlExporter::escape_xml(a), OpmlExporter::escape_xml(b)));
}

#[test]
fn export_holds_no_feed_twice() {
    let folders = vec![
        folder_row(1, "root", None),
        folder_row(2, "child", Some(1)),
        folder_row(3, "ring", Some(4)),
        folder_row(4, "round", Some(3)),
        folder_row(5, "other", None),
    ];
    let feeds = vec![
        feed_row(10, "a", Some(2)),
        feed_row(11, "b", Some(1)),
        feed_row(12, "c", Some(3)),
        feed_row(13, "d", Some(9)),
        feed_row(14, "a", Some(5)),
    ];
    let doc = export_document("a@b.test", NOW, &folders, &feeds);
    let mut titles: Vec<String> =
        flatten_outlines(&doc.outlines, None).into_iter().map(|f| f.title).collect();
    titles.sort();
    assert_eq!(titles, vec!["a", "a", "b", "d"]);
}
