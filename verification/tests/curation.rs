use feedmind::cli::{
    check_demo_feeds, evaluation_summary, export_matched, fetch_summary, is_duplicate_error,
    live_document, opml_summary, CliImport, CliImportAction, CliImportEvent,
};
use feedmind::curated::export::{
    artifact_text, assemble_export, build_curated_export, content_excerpt, content_text,
    decision_text, refer, stable_rule_id, truncate_for_export, CuratedItemExport, ExportContract,
    References,
};
use feedmind::curated::model::{
    build_rule, validate_actor, validate_rule_input, Article, Decision, DecisionOutcome,
    Evaluation, Evidence, RuleInput,
};
use feedmind::curated::sync::{
    check_allowed_hosts, check_max_items, check_size, check_sources, select_item, source_hashes,
    source_order, temporary_name, SyncItem, SyncLimits, SyncProgress,
};
use feedmind::hash::sha256_tag;
use feedmind::opml::document::{FlatFeed, OpmlDocument, OpmlOutline};
use feedmind::routes::feeds::FeedItem;
use feedmind::time::Timestamp;

fn article() -> Article {
    Article {
        id: 1,
        feed_id: 2,
        guid: "guid-1".to_string(),
        title: "Title".to_string(),
        url: Some("https://e.test/a".to_string()),
        summary: Some("Sum".to_string()),
        content: None,
        categories: vec!["x".repeat(70), "b".to_string()],
        published_at: None,
        created_at: Timestamp { seconds: 1_772_600_767, nanos: 999 },
    }
}

fn rule() -> RuleInput {
    RuleInput {
        user_id: None,
        name: "Rust".to_string(),
        pattern: "rust".to_string(),
        action: "star".to_string(),
        feed_id: Some(2),
        priority: None,
        stop_on_match: None,
    }
}

fn evaluation() -> Evaluation {
    Evaluation {
        action: Some("star".to_string()),
        deciding_rule: Some("Rust".to_string()),
        decisions: vec![Decision {
            rule_id: 5,
            outcome: DecisionOutcome::Matched,
            actions: vec!["star".to_string()],
            confidence_bits: 1.0f32.to_bits(),
            explanation: "because".to_string(),
            evidence: vec![
                Evidence {
                    field: "title".to_string(),
                    excerpt: "Title".to_string(),
                    pattern: Some("rust".to_string()),
                },
                Evidence { field: "url".to_string(), excerpt: "x".to_string(), pattern: None },
            ],
        }],
    }
}

fn contract() -> ExportContract {
    ExportContract {
        format: "format".to_string(),
        origin: "origin".to_string(),
        purpose: "purpose".to_string(),
    }
}

fn flat(title: &str, url: &str, folder: Option<&str>) -> FlatFeed {
    FlatFeed {
        title: title.to_string(),
        xml_url: url.to_string(),
        html_url: None,
        folder: folder.map(|f| f.to_string()),
    }
}

fn export_of(article: &Article, evaluation: &Evaluation) -> CuratedItemExport {
    let doc = OpmlDocument::new(Some("Subs".to_string()));
    let feeds = vec![flat("First", "u:1", None), flat("Second", "u:2", None)];
    build_curated_export(&contract(), &doc, &feeds, article, &rule(), evaluation, "actor-1")
}

#[test]
fn export_of_a_matched_article() {
    let export = export_of(&article(), &evaluation());
    assert_eq!(export.export_id, "export:c1ce8282f097d63fd8eb33f7");
    assert_eq!(export.created_at, "2026-03-04T05:06:07Z");
    assert_eq!(export.created_by, "actor-1");
    assert_eq!(export.item.item_id, "00000000-0000-0000-0000-000000000001");
    assert_eq!(
        export.item.content_hash,
        "sha256:5aa1de48a8d668e1c508e35d41e390989677ba04fb155af08938647227cb912d"
    );
    assert_eq!(
        export.item.source_url_hash,
        "sha256:20c48e33c0fe534e457d3a5608e237dea146e4c20b69be1604bc7ae5a8cd06cf"
    );
    assert_eq!(export.item.published_at, None);
    assert_eq!(export.item.tags[0].len(), 64);
    assert_eq!(export.source_ref.source_id, "source:c1ce8282f097d63fd8eb33f7");
    assert_eq!(export.source_ref.opml_feed_count, 2);
    assert_eq!(export.source_ref.first_feed_title.as_deref(), Some("First"));
    assert_eq!(export.curation.decision, "saved");
    assert_eq!(export.curation.reason, "Rust");
    assert_eq!(export.rule_evidence[0].rule_id, "rule:503a9425a1205e56");
    assert_eq!(export.rule_evidence[0].decision, "match");
    assert_eq!(
        export.rule_evidence[0].evidence_hash,
        "sha256:dd6dde0d4a1e3e02848381a5b6469fb036290f52c5764e80afb6d597b945bee1"
    );
    assert_eq!(export.rule_evidence[0].confidence_bits, 1.0f32.to_bits());
    let material = format!(
        "{}:{}:{}:{}",
        export.export_id,
        export.item.content_hash,
        export.item.source_url_hash,
        export.rule_evidence[0].evidence_hash
    );
    assert_eq!(export.artifact_ref.hash, sha256_tag(material.as_bytes()));
    assert_eq!(
        export.provenance_ref.provenance_id,
        "provenance:export:c1ce8282f097d63fd8eb33f7"
    );
    assert!(export_matched(&export));
}

#[test]
fn export_rules_out_what_is_private() {
    let export = export_of(&article(), &evaluation());
    assert!(!export.constraints.contains_raw_private_content);
    assert!(!export.constraints.contains_secrets);
    assert!(!export.constraints.contains_byok_material);
    assert!(!export.constraints.allow_downstream_execution);
    assert!(!export.export_id.contains("guid-1"));
    assert!(!export.source_ref.source_id.contains("guid-1"));
}

#[test]
fn export_without_a_decision() {
    let nothing = Evaluation { action: None, deciding_rule: None, decisions: vec![] };
    let export = export_of(&article(), &nothing);
    assert_eq!(export.curation.decision, "rejected");
    assert_eq!(export.curation.reason, "No rule matched");
    assert_eq!(export.rule_evidence[0].decision, "not_evaluated");
    assert_eq!(export.rule_evidence[0].explanation, "Rule was not evaluated");
    assert_eq!(export.rule_evidence[0].confidence_bits, 0.0f32.to_bits());
    assert_eq!(
        export.rule_evidence[0].evidence_hash,
        sha256_tag(b"Rust:rust:not_evaluated")
    );
    assert!(!export_matched(&export));
    let mut missed = evaluation();
    missed.decisions[0].outcome = DecisionOutcome::NotMatched;
    assert_eq!(export_of(&article(), &missed).rule_evidence[0].decision, "no_match");
}

#[test]
fn ids_depend_on_the_guid_alone() {
    let mut other = article();
    other.title = "Another".to_string();
    other.url = None;
    other.published_at = Some(Timestamp { seconds: 0, nanos: 0 });
    let a = export_of(&article(), &evaluation());
    let b = export_of(&other, &evaluation());
    assert_eq!(a.export_id, b.export_id);
    assert_ne!(a.item.content_hash, b.item.content_hash);
    assert_eq!(b.item.source_url_hash, sha256_tag(b"guid-1"));
    assert_eq!(b.item.published_at.as_deref(), Some("1970-01-01T00:00:00Z"));
}

#[test]
fn excerpts_are_cut() {
    let mut long = article();
    long.summary = None;
    long.content = Some("\u{e9}".repeat(2100));
    assert_eq!(content_excerpt(&long).chars().count(), 2000);
    long.content = None;
    assert_eq!(content_excerpt(&long), "Title");
    assert_eq!(truncate_for_export("abc", 2), "ab");
    assert_eq!(stable_rule_id(&rule()), "rule:503a9425a1205e56");
}

#[test]
fn public_actor_reference_rejects_email_and_unbounded_values() {
    assert!(validate_actor("actor-radar-local-sync").is_ok());
    assert!(validate_actor("person@example.com").is_err());
    assert!(validate_actor(&"a".repeat(65)).is_err());
    assert!(validate_actor("actor with spaces").is_err());
}

#[test]
fn actor_reference_limits() {
    assert!(validate_actor("").is_err());
    assert!(validate_actor(&"a".repeat(64)).is_ok());
    assert!(validate_actor("A_1:z-9").is_ok());
    assert!(validate_actor("\u{e9}").is_err());
}

#[test]
fn rules_are_checked_and_built() {
    assert!(validate_rule_input(&rule()).is_ok());
    let mut bad = rule();
    bad.name = "  ".to_string();
    assert_eq!(
        validate_rule_input(&bad),
        Err("rule name must contain between 1 and 200 characters".to_string())
    );
    let mut bad = rule();
    bad.pattern = "x".repeat(901);
    assert_eq!(
        validate_rule_input(&bad),
        Err("rule pattern must contain between 1 and 900 characters".to_string())
    );
    let built = build_rule(&rule(), 77);
    assert_eq!(built.user_id, 77);
    assert_eq!(built.priority, 0);
    assert!(!built.stop_on_match);
    assert_eq!(built.feed_id, Some(2));
}

fn sync_item(guid: &str, matched: bool) -> SyncItem {
    SyncItem::new(guid, matched)
}

#[test]
fn look_picks_the_first_new_match_within_its_limits() {
    let limits = SyncLimits { max_sources: 8, max_items_per_source: 2, max_total_items: 3 };
    let mut look = SyncProgress::new(limits, vec![sha256_tag(b"known")]);
    assert_eq!(look.next_source(3), Some(0));
    look.take_source(&vec![
        sync_item("known", true),
        sync_item("a", false),
        sync_item("beyond", true),
    ]);
    assert_eq!(look.selection(), None);
    assert_eq!(look.next_source(3), Some(1));
    look.take_source(&vec![sync_item("b", true), sync_item("c", true)]);
    assert_eq!(look.selection(), Some((1, 0)));
    assert_eq!(look.next_source(3), None);
    let summary = look.summary(3, Some("export:1".to_string()), "state");
    assert_eq!(summary.status, "ready");
    assert!(summary.output_written);
    assert_eq!(summary.sources_fetched, 2);
    assert_eq!(summary.items_inspected, 3);
    assert_eq!(summary.previously_seen_items, 1);
    assert_eq!(
        look.into_inspected_hashes(),
        vec![sha256_tag(b"known"), sha256_tag(b"a"), sha256_tag(b"b")]
    );
}

#[test]
fn look_without_a_match_is_empty() {
    let limits = SyncLimits { max_sources: 1, max_items_per_source: 5, max_total_items: 5 };
    let mut look = SyncProgress::new(limits, vec![]);
    look.take_source(&vec![sync_item("a", false)]);
    assert_eq!(look.next_source(1), None);
    let summary = look.summary(1, None, "state");
    assert_eq!(summary.status, "empty");
    assert!(!summary.output_written);
}

#[test]
fn selected_source_comes_first() {
    let feeds = vec![flat("A", "u:a", None), flat("B", "u:b", None), flat("B2", "u:b", None)];
    let titles: Vec<String> =
        source_order(&feeds, 2).into_iter().map(|f| f.title).collect();
    assert_eq!(titles, vec!["B", "A", "B2"]);
    assert_eq!(source_hashes(&feeds)[0], sha256_tag(b"u:a"));
}

#[test]
fn bounds_of_the_commands() {
    assert!(check_allowed_hosts(0).is_err());
    assert!(check_allowed_hosts(64).is_ok());
    assert!(check_allowed_hosts(65).is_err());
    assert_eq!(check_sources(0, 8), Err("OPML file must contain at least one feed".to_string()));
    assert_eq!(check_sources(9, 8), Err("OPML source count exceeds --max-sources".to_string()));
    assert!(check_sources(8, 8).is_ok());
    assert!(check_max_items(0).is_err());
    assert!(check_max_items(100).is_ok());
    assert!(check_max_items(101).is_err());
    assert!(check_size(10, 10, "rule").is_ok());
    assert_eq!(
        check_size(65_537, 65_536, "rule"),
        Err("rule exceeds the 65536-byte limit".to_string())
    );
    assert!(check_demo_feeds(0).is_err());
    assert!(check_demo_feeds(1).is_ok());
    assert_eq!(
        temporary_name("out.json", 1),
        ".out.json.00000000-0000-0000-0000-000000000001.tmp"
    );
}

#[test]
fn live_selection_falls_back_to_the_first_item() {
    assert_eq!(select_item(&vec![false, true, true], 3), 1);
    assert_eq!(select_item(&vec![false, false, true], 2), 0);
}

#[test]
fn summaries_show_what_is_there() {
    let mut folder = OpmlOutline::folder("F".to_string());
    folder.children.push(OpmlOutline::feed("A".to_string(), "u:a".to_string(), None));
    let mut doc = OpmlDocument::new(Some("T".to_string()));
    doc.outlines.push(folder);
    let summary = opml_summary(&doc);
    assert_eq!((summary.feed_count, summary.folder_count), (1, 1));
    assert_eq!(summary.feeds[0].folder.as_deref(), Some("F"));

    let items: Vec<FeedItem> = (0..25)
        .map(|i| FeedItem {
            guid: format!("g{i}"),
            url: None,
            title: "t".to_string(),
            content: None,
            summary: None,
            author: None,
            published_at: Some(Timestamp { seconds: i, nanos: 0 }),
            categories: vec![],
        })
        .collect();
    let fetched = fetch_summary(&items);
    assert_eq!(fetched.item_count, 25);
    assert_eq!(fetched.items.len(), 20);
    assert_eq!(
        fetched.items[19].published_at.as_deref(),
        Some("1970-01-01T00:00:19+00:00")
    );

    let evaluated = evaluation_summary(&evaluation());
    assert!(evaluated.matched);
    assert_eq!(evaluated.decisions[0].outcome, "Matched");
    assert_eq!(evaluated.decisions[0].evidence.len(), 2);

    let (live, feeds) = live_document("Feed", "u:f", &Some("u:s".to_string()));
    assert_eq!(live.outlines[0].html_url.as_deref(), Some("u:s"));
    assert_eq!(feeds[0].xml_url, "u:f");
}

#[test]
fn command_line_import_creates_each_folder_once() {
    let feeds = vec![
        flat("A", "u:a", Some("News")),
        flat("B", "u:b", Some("News")),
        flat("C", "u:c", None),
    ];
    let mut run = CliImport::new(feeds);
    assert!(matches!(run.next_action(), CliImportAction::CreateFolder { name } if name == "News"));
    run.handle(CliImportEvent::FolderCreated(4));
    assert!(matches!(
        run.next_action(),
        CliImportAction::CreateFeed { at: 0, folder_id: Some(4) }
    ));
    run.handle(CliImportEvent::FeedCreated);
    assert!(matches!(
        run.next_action(),
        CliImportAction::CreateFeed { at: 1, folder_id: Some(4) }
    ));
    run.handle(CliImportEvent::FeedRefused);
    assert!(matches!(run.next_action(), CliImportAction::CreateFeed { at: 2, folder_id: None }));
    assert_eq!(run.feed(2).title, "C");
    run.handle(CliImportEvent::FeedCreated);
    assert!(matches!(run.next_action(), CliImportAction::Finished));
    assert_eq!(run.counts(), (2, 1, 1));
    assert!(is_duplicate_error("duplicate key value"));
    assert!(is_duplicate_error("violates unique constraint"));
    assert!(!is_duplicate_error("connection closed"));
}

#[test]
fn texts_behind_the_digests() {
    assert_eq!(content_text(&article()), "Title\nSum\n");
    assert_eq!(
        decision_text(&rule(), &evaluation().decisions),
        "Rust:because:title:Title:rust|url:x:"
    );
    assert_eq!(decision_text(&rule(), &vec![]), "Rust:rust:not_evaluated");
    assert_eq!(artifact_text("e", "c", "s", "v"), "e:c:s:v");
    let refs = refer(&article(), &rule(), &evaluation().decisions);
    assert_eq!(refs.content_hash, sha256_tag(b"Title\nSum\n"));
    assert_eq!(refs.source_url_hash, sha256_tag(b"https://e.test/a"));
    let artifact = artifact_text(
        &format!("export:{}", refs.item_reference),
        &refs.content_hash,
        &refs.source_url_hash,
        &refs.evidence_hash,
    );
    assert_eq!(refs.artifact_hash, sha256_tag(artifact.as_bytes()));
}

#[test]
fn export_from_given_references() {
    let refs = References {
        item_id: "item".to_string(),
        item_reference: "ref".to_string(),
        rule_id: "rule:x".to_string(),
        content_hash: "c".to_string(),
        source_url_hash: "s".to_string(),
        evidence_hash: "e".to_string(),
        artifact_hash: "a".to_string(),
        created_at: "then".to_string(),
        published_at: Some("before".to_string()),
    };
    let doc = OpmlDocument::new(None);
    let mut rejected = evaluation();
    rejected.action = None;
    rejected.deciding_rule = None;
    rejected.decisions[0].outcome = DecisionOutcome::NotMatched;
    let export =
        assemble_export(&contract(), &doc, &vec![], &article(), &rejected, "actor-2", refs);
    assert_eq!(export.export_id, "export:ref");
    assert_eq!(export.source_ref.source_id, "source:ref");
    assert_eq!(export.source_ref.provenance_id, "provenance:export:ref");
    assert_eq!(export.provenance_ref.provenance_id, "provenance:export:ref");
    assert_eq!(export.artifact_ref.artifact_id, "artifact:export:ref");
    assert_eq!(export.artifact_ref.hash, "a");
    assert_eq!(export.source_ref.first_feed_title, None);
    assert_eq!(export.item.published_at.as_deref(), Some("before"));
    assert_eq!(export.curation.decision, "rejected");
    assert_eq!(export.curation.reason, "No rule matched");
    assert_eq!(export.rule_evidence[0].decision, "no_match");
    assert_eq!(export.created_at, "then");
}

#[test]
fn whole_look_picks_the_first_new_match() {
    let sources = vec![
        vec![sync_item("known", true), sync_item("a", false), sync_item("cut", true)],
        vec![],
        vec![sync_item("b", false), sync_item("c", true)],
        vec![sync_item("d", true)],
        vec![sync_item("never", true)],
    ];
    for (total, selection, inspected, fetched) in
        [(3, None, 3, 3), (4, Some((2, 1)), 4, 3), (5, Some((2, 1)), 5, 4), (9, Some((2, 1)), 6, 5)]
    {
        let limits = SyncLimits { max_sources: 8, max_items_per_source: 2, max_total_items: total };
        let mut look = SyncProgress::new(limits, vec![sha256_tag(b"known")]);
        while let Some(next) = look.next_source(sources.len()) {
            look.take_source(&sources[next]);
        }
        assert_eq!(look.selection(), selection);
        let summary = look.summary(5, None, "state");
        assert_eq!((summary.items_inspected, summary.sources_fetched), (inspected, fetched));
    }
}
