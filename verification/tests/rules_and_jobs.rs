use feedmind::error::ApiError;
use feedmind::routes::rules::{
    check_rule_limit, check_settings, context_of, default_fields, default_limit, list_meta,
    preview_articles, preview_data, preview_limit, preview_since, priorities, validate_action,
    validate_action_params, validate_config, ActionParams, ArticleForPreview, CreateRuleRequest,
    FoundAt, ListRulesQuery, PreviewRuleRequest, PreviewScope, RuleConfig, RuleScope,
    UpdateRuleRequest,
};
use feedmind::time::Timestamp;
use feedmind::worker::queue::{
    evaluate_rules, hits_for_matches, item_word_count, new_article_ids, record_ids, ArticleRow,
    RuleEffect, RuleRow, UsageRow,
};

fn config(pattern: &str, fields: &[&str], case_sensitive: bool) -> RuleConfig {
    RuleConfig {
        pattern: pattern.to_string(),
        fields: fields.iter().map(|f| f.to_string()).collect(),
        case_sensitive,
    }
}

fn create(action: &str, pattern: &str) -> CreateRuleRequest {
    CreateRuleRequest {
        name: "name".to_string(),
        description: None,
        rule_type: None,
        config: config(pattern, &["title"], false),
        action: action.to_string(),
        action_params: None,
        feed_id: None,
        folder_id: None,
        priority: None,
        stop_on_match: None,
    }
}

fn message(error: ApiError) -> String {
    match error {
        ApiError::Validation(message) => message,
        other => panic!("{other:?}"),
    }
}

#[test]
fn actions_are_known() {
    for action in ["hide", "star", "tag", "mark_read"] {
        assert!(validate_action(action).is_ok());
    }
    assert_eq!(
        message(validate_action("delete").unwrap_err()),
        "Invalid action 'delete'. Valid actions: hide, star, tag, mark_read"
    );
}

#[test]
fn settings_are_checked() {
    assert!(validate_config(&config("rust", &["title", "url"], true)).is_ok());
    assert!(message(validate_config(&config("(", &["title"], true)).unwrap_err())
        .starts_with("Invalid regex pattern: regex parse error"));
    assert_eq!(
        message(validate_config(&config("x", &["title", "body", "z"], true)).unwrap_err()),
        "Invalid field 'body'. Valid fields: title, content, summary, author, url"
    );
    assert_eq!(
        message(validate_config(&config("x", &[], true)).unwrap_err()),
        "At least one field must be specified"
    );
    assert_eq!(
        message(check_settings(&vec![], Some("because")).unwrap_err()),
        "Invalid regex pattern: because"
    );
    assert_eq!(default_fields(), vec!["title".to_string()]);
}

#[test]
fn tagging_needs_tags() {
    let some = |tags| Some(ActionParams { tags });
    assert!(validate_action_params("hide", None).is_ok());
    assert!(validate_action_params("tag", some(Some(1))).is_ok());
    assert_eq!(
        message(validate_action_params("tag", None).unwrap_err()),
        "Tag action requires action_params with 'tags' array"
    );
    for tags in [None, Some(0)] {
        assert_eq!(
            message(validate_action_params("tag", some(tags)).unwrap_err()),
            "Tag action requires 'tags' array in action_params"
        );
    }
}

#[test]
fn new_rules_are_planned() {
    let rule = create("HIDE", "rust").plan().expect("accepted");
    assert_eq!(rule.action, "hide");
    assert_eq!(rule.rule_type, "regex");
    assert_eq!(rule.priority, 0);
    assert!(!rule.stop_on_match);
    let mut request = create("star", "rust");
    request.rule_type = Some("other".to_string());
    request.priority = Some(-4);
    request.stop_on_match = Some(true);
    let rule = request.plan().expect("accepted");
    assert_eq!((rule.rule_type.as_str(), rule.priority, rule.stop_on_match), ("other", -4, true));
    assert!(message(create("bad", "(").plan().unwrap_err()).starts_with("Invalid action 'bad'"));
    assert!(message(create("star", "(").plan().unwrap_err()).starts_with("Invalid regex"));
    assert!(message(create("tag", "x").plan().unwrap_err()).starts_with("Tag action requires"));
    assert_eq!(
        message(create("star", "x").plan_after(Some("broken")).unwrap_err()),
        "Invalid regex pattern: broken"
    );
    assert!(create("star", "x").has_valid_name());
    let mut unnamed = create("star", "x");
    unnamed.name = String::new();
    assert!(!unnamed.has_valid_name());
}

#[test]
fn changes_are_checked_against_the_rule() {
    let mut request = UpdateRuleRequest {
        name: None,
        description: None,
        config: None,
        action: None,
        action_params: None,
        feed_id: None,
        folder_id: None,
        priority: None,
        stop_on_match: None,
        is_active: Some(false),
    };
    assert!(request.check("tag", Some(ActionParams { tags: Some(2) })).is_ok());
    assert!(request.check("tag", None).is_err());
    request.action = Some("HIDE".to_string());
    assert!(message(request.check("star", None).unwrap_err()).starts_with("Invalid action 'HIDE'"));
    request.action = Some("hide".to_string());
    assert!(request.check("tag", None).is_ok());
    request.config = Some(config("[", &["title"], false));
    assert!(message(request.check("tag", None).unwrap_err()).starts_with("Invalid regex"));
    assert!(request.check_after("tag", None, None).is_ok());
}

#[test]
fn rule_limit_and_lists() {
    assert!(check_rule_limit(9, 10).is_ok());
    match check_rule_limit(11, 10) {
        Err(ApiError::Forbidden(message)) => assert_eq!(
            message,
            "Rule limit reached (11/10). Upgrade to add more rules."
        ),
        other => panic!("{other:?}"),
    }
    let scope = |feed_id, folder_id, is_active| ListRulesQuery { feed_id, folder_id, is_active };
    assert_eq!(scope(Some(1), Some(2), Some(true)).scope(), RuleScope::Feed(1));
    assert_eq!(scope(None, Some(2), Some(true)).scope(), RuleScope::Folder(2));
    assert_eq!(scope(None, None, Some(true)).scope(), RuleScope::Active(true));
    assert_eq!(scope(None, None, None).scope(), RuleScope::All);
    assert_eq!(list_meta(3).total, 3);
}

#[test]
fn new_order_is_strict() {
    assert_eq!(priorities(&vec![7, 5, 9]), vec![(7, 3), (5, 2), (9, 1)]);
    assert_eq!(priorities(&vec![]), vec![]);
}

fn article(id: u128, title: &str, content: Option<&str>) -> ArticleForPreview {
    ArticleForPreview {
        id,
        title: title.to_string(),
        content: content.map(|c| c.to_string()),
        summary: None,
        author: None,
        url: None,
    }
}

#[test]
fn context_shows_twenty_bytes_around_a_match() {
    let body = "0123456789012345678901234567890123456789ABC0123456789012345678901234567890";
    assert_eq!(
        context_of(body, (40, 43)),
        "...01234567890123456789ABC01234567890123456789..."
    );
    assert_eq!(context_of("short", (0, 5)), "short");
    assert_eq!(context_of("a short text", (2, 7)), "a short text");
}

#[test]
fn preview_counts_each_article_once_and_shows_ten() {
    let pattern = validate_config(&config("RUST", &["content", "title"], false)).expect("valid");
    let fields = vec!["content".to_string(), "title".to_string()];
    let mut articles: Vec<ArticleForPreview> =
        (0..12).map(|i| article(i, "rust here", Some("and rust there"))).collect();
    articles.push(article(50, "nothing", None));
    let data = preview_articles(&pattern, &fields, &articles).expect("all matches can be shown");
    assert_eq!(data.total_articles, 13);
    assert_eq!(data.matched_articles, 12);
    assert_eq!(data.sample_matches.len(), 10);
    assert_eq!(data.sample_matches[9].article_id, 9);
    assert_eq!(data.sample_matches[0].matched_field, "content");
    assert_eq!(data.sample_matches[0].matched_text, "and rust there");
    assert_eq!(data.sample_matches[0].title, "rust here");
}

#[test]
fn preview_stops_at_a_match_that_cannot_be_shown() {
    let pattern = validate_config(&config("x", &["title"], true)).expect("valid");
    let fields = vec!["title".to_string()];
    let split = vec![article(1, &format!("{}ax", "é".repeat(10)), None)];
    let data = preview_articles(&pattern, &fields, &split);
    assert!(data.is_none());
    let whole = vec![article(1, &format!("{}x", "é".repeat(10)), None)];
    assert!(preview_articles(&pattern, &fields, &whole).is_some());
}

#[test]
fn preview_from_given_places() {
    let articles = vec![article(1, "one", None), article(2, "two", None), article(3, "six", None)];
    let fields = vec!["title".to_string()];
    let found = vec![
        None,
        Some(FoundAt { field: 0, start: 0, end: 3 }),
        Some(FoundAt { field: 0, start: 1, end: 2 }),
    ];
    let data = preview_data(&fields, &articles, &found);
    assert_eq!((data.total_articles, data.matched_articles), (3, 2));
    assert_eq!(data.sample_matches[0].article_id, 2);
    assert_eq!(data.sample_matches[1].matched_text, "six");
}

#[test]
fn preview_bounds() {
    assert_eq!(default_limit(), 50);
    assert_eq!(preview_limit(500), 100);
    assert_eq!(preview_limit(-1), -1);
    let now = Timestamp { seconds: 1_000_000, nanos: 3 };
    assert_eq!(preview_since(now), Timestamp { seconds: 395_200, nanos: 3 });
    let request = |feed_id, folder_id| PreviewRuleRequest {
        config: config("x", &["title"], false),
        feed_id,
        folder_id,
        limit: 5,
    };
    assert_eq!(request(Some(1), Some(2)).scope(), PreviewScope::Feed(1));
    assert_eq!(request(None, Some(2)).scope(), PreviewScope::Folder(2));
    assert_eq!(request(None, None).scope(), PreviewScope::All);
}

fn rule(id: u128, pattern: Option<&str>, action: &str, stop_on_match: bool) -> RuleRow {
    RuleRow {
        id,
        pattern: pattern.map(|p| p.to_string()),
        case_sensitive: None,
        action: action.to_string(),
        stop_on_match,
    }
}

fn stored(id: u128, title: &str, summary: Option<&str>, content: Option<&str>) -> ArticleRow {
    ArticleRow {
        id,
        title: title.to_string(),
        summary: summary.map(|s| s.to_string()),
        content: content.map(|c| c.to_string()),
    }
}

#[test]
fn rules_take_effect_in_order_until_one_stops() {
    let rules = vec![
        rule(1, Some("rust"), "star", false),
        rule(2, None, "hide", false),
        rule(3, Some("("), "hide", false),
        rule(4, Some("news"), "mark_read", true),
        rule(5, Some("rust"), "hide", false),
    ];
    let articles = vec![
        stored(10, "Rust News", None, None),
        stored(11, "Other", Some("about RUST"), None),
        stored(12, "Nothing", None, None),
    ];
    let hits = evaluate_rules(&rules, &articles);
    let seen: Vec<(u128, u128, RuleEffect, &str)> = hits
        .iter()
        .map(|h| (h.article_id, h.rule_id, h.effect, h.matched_text.as_str()))
        .collect();
    assert_eq!(
        seen,
        vec![
            (10, 1, RuleEffect::Star, "Rust"),
            (10, 4, RuleEffect::MarkRead, "News"),
            (11, 1, RuleEffect::Star, "RUST"),
            (11, 5, RuleEffect::Hide, "RUST"),
        ]
    );
}

#[test]
fn case_counts_where_it_is_asked_for() {
    let mut strict = rule(1, Some("rust"), "tag", false);
    strict.case_sensitive = Some(true);
    let articles = vec![stored(1, "Rust", None, Some("and rust"))];
    let hits = evaluate_rules(&vec![strict], &articles);
    assert_eq!(hits.len(), 1);
    assert_eq!(hits[0].effect, RuleEffect::Record);
    assert_eq!(hits[0].action, "tag");
    assert_eq!(hits[0].matched_text, "rust");
}

#[test]
fn matches_may_span_the_parts_of_an_article() {
    let articles = vec![stored(1, "a", Some("b"), Some("c"))];
    let hits = evaluate_rules(&vec![rule(1, Some("^a b c$"), "hide", false)], &articles);
    assert_eq!(hits[0].matched_text, "a b c");
}

#[test]
fn hits_from_given_places() {
    let rules = vec![rule(1, None, "hide", true), rule(2, None, "star", false)];
    let article = stored(9, "abc", None, None);
    let hits = hits_for_matches(&rules, &article, &vec![Some((0, 1)), Some((1, 3))]);
    assert_eq!(hits.len(), 1);
    assert_eq!(hits[0].matched_text, "a");
    let hits = hits_for_matches(&rules, &article, &vec![None, Some((1, 3))]);
    assert_eq!((hits[0].rule_id, hits[0].matched_text.as_str()), (2, "bc"));
    assert!(hits_for_matches(&rules, &article, &vec![]).is_empty());
}

#[test]
fn what_jobs_keep_track_of() {
    assert_eq!(item_word_count(&Some("one two\tthree".to_string()), &None), Some(3));
    assert_eq!(item_word_count(&None, &Some(" one ".to_string())), Some(1));
    assert_eq!(item_word_count(&None, &None), None);
    assert_eq!(new_article_ids(&vec![Some(3), None, Some(1)]), vec![3, 1]);
    let records = vec![
        UsageRow { id: 4, usage_type: "api_call".to_string(), quantity: 1 },
        UsageRow { id: 2, usage_type: "ai_tokens".to_string(), quantity: 9 },
    ];
    assert_eq!(record_ids(&records), vec![4, 2]);
}

#[test]
fn targets_of_a_rule_must_be_there() {
    let mut request = create("star", "x");
    assert!(request.check_targets(false, false).is_ok());
    request.folder_id = Some(2);
    assert!(matches!(
        request.check_targets(false, false),
        Err(ApiError::NotFound(m)) if m == "Folder not found"
    ));
    request.feed_id = Some(1);
    assert!(matches!(
        request.check_targets(false, false),
        Err(ApiError::NotFound(m)) if m == "Feed not found"
    ));
    assert!(request.check_targets(true, true).is_ok());
}
