//! Rules of a user.

use vstd::prelude::*;
use vstd::string::*;

use crate::error;
use crate::error::{ApiError, ApiResult, ErrorKind};
use crate::ids::Uuid;
use crate::lists;
use crate::pattern;
use crate::pattern::Pattern;
use crate::routes::common;
use crate::text;
use crate::time;
use crate::time::Timestamp;
use crate::worker::queue;

verus! {

/// What a rule looks for, and where.
#[derive(Debug)]
pub struct RuleConfig {
    pub pattern: String,
    pub fields: Vec<String>,
    pub case_sensitive: bool,
}

/// What goes with an action: the number of tags, where there is a list of them.
#[derive(Clone, Copy, Debug, PartialEq, Eq, Structural)]
pub struct ActionParams {
    pub tags: Option<usize>,
}

/// A request for a new rule.
#[derive(Debug)]
pub struct CreateRuleRequest {
    pub name: String,
    pub description: Option<String>,
    pub rule_type: Option<String>,
    pub config: RuleConfig,
    pub action: String,
    pub action_params: Option<ActionParams>,
    pub feed_id: Option<Uuid>,
    pub folder_id: Option<Uuid>,
    pub priority: Option<i32>,
    pub stop_on_match: Option<bool>,
}

/// A request to change a rule.
#[derive(Debug)]
pub struct UpdateRuleRequest {
    pub name: Option<String>,
    pub description: Option<String>,
    pub config: Option<RuleConfig>,
    pub action: Option<String>,
    pub action_params: Option<ActionParams>,
    pub feed_id: Option<Uuid>,
    pub folder_id: Option<Uuid>,
    pub priority: Option<i32>,
    pub stop_on_match: Option<bool>,
    pub is_active: Option<bool>,
}

/// A request for the rules of a user.
#[derive(Clone, Copy, Debug)]
pub struct ListRulesQuery {
    pub feed_id: Option<Uuid>,
    pub folder_id: Option<Uuid>,
    pub is_active: Option<bool>,
}

/// A request to try out a rule.
#[derive(Debug)]
pub struct PreviewRuleRequest {
    pub config: RuleConfig,
    pub feed_id: Option<Uuid>,
    pub folder_id: Option<Uuid>,
    pub limit: i32,
}

/// A request to switch a rule on or off.
#[derive(Clone, Copy, Debug)]
pub struct ToggleRuleRequest {
    pub is_active: bool,
}

/// A request for a new order of the rules.
#[derive(Debug)]
pub struct ReorderRulesRequest {
    pub rule_ids: Vec<Uuid>,
}

/// What goes with a list of rules.
#[derive(Clone, Copy, Debug, PartialEq, Eq, Structural)]
pub struct ListMeta {
    pub total: i64,
}

/// What a rule would do.
#[derive(Debug)]
pub struct PreviewData {
    pub total_articles: i64,
    pub matched_articles: i64,
    pub sample_matches: Vec<PreviewMatch>,
}

/// An article that a rule matches, and where.
#[derive(Debug)]
pub struct PreviewMatch {
    pub article_id: Uuid,
    pub title: String,
    pub matched_field: String,
    pub matched_text: String,
}

/// An article that a rule is tried out on.
#[derive(Debug)]
pub struct ArticleForPreview {
    pub id: Uuid,
    pub title: String,
    pub content: Option<String>,
    pub summary: Option<String>,
    pub author: Option<String>,
    pub url: Option<String>,
}

/// The fields that a rule looks at where it names none: the title.
pub fn default_fields() -> (res: Vec<String>)
    ensures
        text::views(res@) == seq!["title"@],
{
    let mut res: Vec<String> = Vec::new();
    res.push("title".to_string());
    proof {
        assert(text::views(res@) =~= seq!["title"@]);
    }
    res
}

/// The number of articles that a rule is tried out on where the request names none.
pub fn default_limit() -> (res: i32)
    ensures
        res == 50,
{
    50
}

/// The number of articles that a rule is tried out on: what was asked for, at most 100.
pub fn preview_limit(limit: i32) -> (res: i32)
    ensures
        res == if limit <= 100 {
            limit
        } else {
            100
        },
{
    if limit <= 100 {
        limit
    } else {
        100
    }
}

/// A rule is tried out on the articles of the last seven days.
pub fn preview_since(now: Timestamp) -> (res: Timestamp)
    requires
        time::has_days_before(now, 7),
    ensures
        res == time::days_before(now, 7),
{
    time::minus_days(now, 7)
}

/// Whether a text is the name of an action.
pub open spec fn is_action(action: Seq<char>) -> bool {
    action == "hide"@ || action == "star"@ || action == "tag"@ || action == "mark_read"@
}

/// Whether a text is the name of a field.
pub open spec fn is_field(field: Seq<char>) -> bool {
    field == "title"@ || field == "content"@ || field == "summary"@ || field == "author"@ || field
        == "url"@
}

/// What is said of an action that is none.
pub open spec fn invalid_action_text(action: Seq<char>) -> Seq<char> {
    "Invalid action '"@ + action + "'. Valid actions: hide, star, tag, mark_read"@
}

/// What is said of a field that is none.
pub open spec fn invalid_field_text(field: Seq<char>) -> Seq<char> {
    "Invalid field '"@ + field + "'. Valid fields: title, content, summary, author, url"@
}

/// A rule hides an article, stars it, tags it or marks it as read.
pub fn validate_action(action: &str) -> (res: ApiResult<()>)
    ensures
        is_action(action@) ==> res is Ok,
        !is_action(action@) ==> error::fails(
            res,
            ErrorKind::Validation,
            invalid_action_text(action@),
        ),
{
    if text::same(action, "hide") || text::same(action, "star") || text::same(action, "tag")
        || text::same(action, "mark_read") {
        Ok(())
    } else {
        let mut message: String = "Invalid action '".to_string();
        message.append(action);
        message.append("'. Valid actions: hide, star, tag, mark_read");
        Err(ApiError::Validation(message))
    }
}

/// The first of some fields that is none, from `i` on.
pub open spec fn bad_field(fields: Seq<String>, i: int) -> Option<Seq<char>>
    decreases fields.len() - i,
{
    if i >= fields.len() || i < 0 {
        None
    } else if !is_field(fields[i]@) {
        Some(fields[i]@)
    } else {
        bad_field(fields, i + 1)
    }
}

/// Why the pattern of a rule is no regular expression, where it is none.
pub open spec fn pattern_failure(config: RuleConfig) -> Option<Seq<char>> {
    match pattern::compiled(config.pattern@, !config.case_sensitive) {
        Err(reason) => Some(reason),
        Ok(_) => None,
    }
}

/// What is wrong with the settings of a rule: its pattern, else its first bad field, else
/// that it has no field.
pub open spec fn settings_problem(fields: Seq<String>, failure: Option<Seq<char>>) -> Option<
    Seq<char>,
> {
    match failure {
        Some(reason) => Some("Invalid regex pattern: "@ + reason),
        None => match bad_field(fields, 0) {
            Some(field) => Some(invalid_field_text(field)),
            None => if fields.len() == 0 {
                Some("At least one field must be specified"@)
            } else {
                None
            },
        },
    }
}

/// What is wrong with the settings of a rule.
pub open spec fn config_problem(config: RuleConfig) -> Option<Seq<char>> {
    settings_problem(config.fields@, pattern_failure(config))
}

/// Whether the settings of a rule are accepted, from its fields and from why its pattern could
/// not be compiled, where it could not.
pub fn check_settings(fields: &Vec<String>, failure: Option<&str>) -> (res: ApiResult<()>)
    ensures
        match settings_problem(fields@, view_reason(failure)) {
            Some(problem) => error::fails(res, ErrorKind::Validation, problem),
            None => res is Ok,
        },
{
    if let Some(reason) = failure {
        return Err(ApiError::Validation(common::prefixed("Invalid regex pattern: ", reason)));
    }
    let mut i: usize = 0;
    while i < fields.len()
        invariant
            i <= fields@.len(),
            failure is None,
            bad_field(fields@, 0) == bad_field(fields@, i as int),
        decreases fields@.len() - i,
    {
        let field: &str = fields[i].as_str();
        let valid: bool = text::same(field, "title") || text::same(field, "content")
            || text::same(field, "summary") || text::same(field, "author") || text::same(
            field,
            "url",
        );
        if !valid {
            let mut message: String = "Invalid field '".to_string();
            message.append(field);
            message.append("'. Valid fields: title, content, summary, author, url");
            return Err(ApiError::Validation(message));
        }
        i += 1;
    }
    if fields.len() == 0 {
        return Err(ApiError::Validation("At least one field must be specified".to_string()));
    }
    Ok(())
}

/// The characters of a reason, where there is one.
pub open spec fn view_reason(failure: Option<&str>) -> Option<Seq<char>> {
    match failure {
        Some(reason) => Some(reason@),
        None => None,
    }
}

/// Why the pattern of a rule is no regular expression, where it is none.
fn find_failure(config: &RuleConfig) -> (res: Option<String>)
    ensures
        text::view_opt(res) == pattern_failure(*config),
{
    match pattern::compile(config.pattern.as_str(), !config.case_sensitive) {
        Ok(_) => None,
        Err(reason) => Some(reason),
    }
}

fn as_reason(failure: &Option<String>) -> (res: Option<&str>)
    ensures
        view_reason(res) == text::view_opt(*failure),
{
    match failure {
        Some(reason) => Some(reason.as_str()),
        None => None,
    }
}

/// The compiled pattern of a rule whose settings are accepted.
pub fn validate_config(config: &RuleConfig) -> (res: ApiResult<Pattern>)
    ensures
        match config_problem(*config) {
            Some(problem) => error::fails(res, ErrorKind::Validation, problem),
            None => res matches Ok(p) && p@ == (config.pattern@, !config.case_sensitive),
        },
{
    match pattern::compile(config.pattern.as_str(), !config.case_sensitive) {
        Ok(compiled) => match check_settings(&config.fields, None) {
            Ok(_) => Ok(compiled),
            Err(e) => Err(e),
        },
        Err(reason) => match check_settings(&config.fields, Some(reason.as_str())) {
            Ok(_) => Err(ApiError::Validation(reason)),
            Err(e) => Err(e),
        },
    }
}

/// What is wrong with what goes with an action: only tagging needs something, a list of at
/// least one tag.
pub open spec fn params_problem(action: Seq<char>, params: Option<ActionParams>) -> Option<
    Seq<char>,
> {
    if action != "tag"@ {
        None
    } else {
        match params {
            Some(p) => match p.tags {
                Some(n) => if n == 0 {
                    Some("Tag action requires 'tags' array in action_params"@)
                } else {
                    None
                },
                None => Some("Tag action requires 'tags' array in action_params"@),
            },
            None => Some("Tag action requires action_params with 'tags' array"@),
        }
    }
}

/// Whether what goes with an action is what it needs.
pub fn validate_action_params(action: &str, params: Option<ActionParams>) -> (res: ApiResult<()>)
    ensures
        match params_problem(action@, params) {
            Some(problem) => error::fails(res, ErrorKind::Validation, problem),
            None => res is Ok,
        },
{
    if text::same(action, "tag") {
        match params {
            Some(p) => {
                let enough: bool = match p.tags {
                    Some(n) => n > 0,
                    None => false,
                };
                if !enough {
                    return Err(
                        ApiError::Validation(
                            "Tag action requires 'tags' array in action_params".to_string(),
                        ),
                    );
                }
            },
            None => {
                return Err(
                    ApiError::Validation(
                        "Tag action requires action_params with 'tags' array".to_string(),
                    ),
                );
            },
        }
    }
    Ok(())
}

/// Which rules a list shows. A feed goes before a folder, and a folder before the state.
#[derive(Clone, Copy, Debug, PartialEq, Eq, Structural)]
pub enum RuleScope {
    /// The rules for a feed, and those for no feed in particular.
    Feed(Uuid),
    /// The rules for a folder, and those for no folder in particular.
    Folder(Uuid),
    /// The rules that are switched on, or those that are switched off.
    Active(bool),
    /// All rules.
    All,
}

impl ListRulesQuery {
    /// Which rules the list shows.
    pub fn scope(&self) -> (res: RuleScope)
        ensures
            res == match (self.feed_id, self.folder_id, self.is_active) {
                (Some(feed), _, _) => RuleScope::Feed(feed),
                (None, Some(folder), _) => RuleScope::Folder(folder),
                (None, None, Some(active)) => RuleScope::Active(active),
                (None, None, None) => RuleScope::All,
            },
    {
        match (self.feed_id, self.folder_id, self.is_active) {
            (Some(feed), _, _) => RuleScope::Feed(feed),
            (None, Some(folder), _) => RuleScope::Folder(folder),
            (None, None, Some(active)) => RuleScope::Active(active),
            (None, None, None) => RuleScope::All,
        }
    }
}

/// Which articles a rule is tried out on. A feed goes before a folder.
#[derive(Clone, Copy, Debug, PartialEq, Eq, Structural)]
pub enum PreviewScope {
    Feed(Uuid),
    Folder(Uuid),
    All,
}

impl PreviewRuleRequest {
    /// Which articles the rule is tried out on.
    pub fn scope(&self) -> (res: PreviewScope)
        ensures
            res == match (self.feed_id, self.folder_id) {
                (Some(feed), _) => PreviewScope::Feed(feed),
                (None, Some(folder)) => PreviewScope::Folder(folder),
                (None, None) => PreviewScope::All,
            },
    {
        match (self.feed_id, self.folder_id) {
            (Some(feed), _) => PreviewScope::Feed(feed),
            (None, Some(folder)) => PreviewScope::Folder(folder),
            (None, None) => PreviewScope::All,
        }
    }
}

/// What is stored of a new rule besides what the request holds.
#[derive(Debug)]
pub struct NewRule {
    pub rule_type: String,
    pub action: String,
    pub priority: i32,
    pub stop_on_match: bool,
}

impl CreateRuleRequest {
    /// The name has between 1 and 255 characters.
    pub fn has_valid_name(&self) -> (res: bool)
        ensures
            res == common::within(self.name@, 1, 255),
    {
        common::is_within(self.name.as_str(), 1, 255)
    }

    /// What is wrong with the request, apart from its name.
    pub open spec fn problem(self, failure: Option<Seq<char>>) -> Option<Seq<char>> {
        let action = text::lowercase(self.action@);
        if !is_action(action) {
            Some(invalid_action_text(action))
        } else {
            match settings_problem(self.config.fields@, failure) {
                Some(problem) => Some(problem),
                None => params_problem(action, self.action_params),
            }
        }
    }

    /// Whether `res` is what is stored of the rule: the action in lowercase, and `regex`, the
    /// priority 0 and going on after a match where the request names nothing else.
    pub open spec fn is_planned(self, failure: Option<Seq<char>>, res: ApiResult<NewRule>) -> bool {
        match self.problem(failure) {
            Some(problem) => error::fails(res, ErrorKind::Validation, problem),
            None => {
                &&& res matches Ok(rule)
                &&& rule.action@ == text::lowercase(self.action@)
                &&& rule.rule_type@ == (match self.rule_type {
                    Some(t) => t@,
                    None => "regex"@,
                })
                &&& rule.priority == (match self.priority {
                    Some(p) => p,
                    None => 0,
                })
                &&& rule.stop_on_match == (self.stop_on_match == Some(true))
            },
        }
    }

    /// What is stored of the rule, from why its pattern could not be compiled, where it could
    /// not.
    pub fn plan_after(&self, failure: Option<&str>) -> (res: ApiResult<NewRule>)
        ensures
            self.is_planned(view_reason(failure), res),
    {
        let action: String = self.action.as_str().to_lowercase();
        match validate_action(action.as_str()) {
            Ok(_) => {},
            Err(e) => {
                return Err(e);
            },
        }
        match check_settings(&self.config.fields, failure) {
            Ok(_) => {},
            Err(e) => {
                return Err(e);
            },
        }
        match validate_action_params(action.as_str(), self.action_params) {
            Ok(_) => {},
            Err(e) => {
                return Err(e);
            },
        }
        Ok(
            NewRule {
                rule_type: match &self.rule_type {
                    Some(t) => t.clone(),
                    None => "regex".to_string(),
                },
                action,
                priority: match self.priority {
                    Some(p) => p,
                    None => 0,
                },
                stop_on_match: match self.stop_on_match {
                    Some(stop) => stop,
                    None => false,
                },
            },
        )
    }

    /// What is stored of the rule.
    pub fn plan(&self) -> (res: ApiResult<NewRule>)
        ensures
            self.is_planned(pattern_failure(self.config), res),
    {
        let failure: Option<String> = find_failure(&self.config);
        self.plan_after(as_reason(&failure))
    }
}

impl CreateRuleRequest {
    /// What the rule is for, a feed or a folder or both, must be there.
    pub fn check_targets(&self, feed_exists: bool, folder_exists: bool) -> (res: ApiResult<()>)
        ensures
            self.feed_id is Some && !feed_exists ==> error::fails(
                res,
                ErrorKind::NotFound,
                "Feed not found"@,
            ),
            !(self.feed_id is Some && !feed_exists) && self.folder_id is Some && !folder_exists
                ==> error::fails(res, ErrorKind::NotFound, "Folder not found"@),
            (self.feed_id is Some ==> feed_exists) && (self.folder_id is Some ==> folder_exists)
                ==> res is Ok,
    {
        if self.feed_id.is_some() && !feed_exists {
            return Err(ApiError::NotFound("Feed not found".to_string()));
        }
        common::require_exists(self.folder_id.is_none() || folder_exists, "Folder not found")
    }
}

/// What is said of a user who has as many rules as they may have.
pub open spec fn rule_limit_text(count: int, max: int) -> Seq<char> {
    "Rule limit reached ("@ + text::decimal(count) + "/"@ + text::decimal(max)
        + "). Upgrade to add more rules."@
}

/// A rule is added where the user has fewer rules than they may have.
pub fn check_rule_limit(count: i64, max: i64) -> (res: ApiResult<()>)
    ensures
        count < max ==> res is Ok,
        count >= max ==> error::fails(
            res,
            ErrorKind::Forbidden,
            rule_limit_text(count as int, max as int),
        ),
{
    if count >= max {
        let mut message: String = "Rule limit reached (".to_string();
        message.append(text::number_to_text(count).as_str());
        message.append("/");
        message.append(text::number_to_text(max).as_str());
        message.append("). Upgrade to add more rules.");
        return Err(ApiError::Forbidden(message));
    }
    Ok(())
}

impl UpdateRuleRequest {
    /// What is wrong with the request, for a rule with this action and what goes with it: a
    /// new action or new settings must be accepted, and what goes with the action that the
    /// rule then has must be what it needs.
    pub open spec fn problem(
        self,
        existing_action: Seq<char>,
        existing_params: Option<ActionParams>,
        failure: Option<Seq<char>>,
    ) -> Option<Seq<char>> {
        let action = match self.action {
            Some(action) => action@,
            None => existing_action,
        };
        let params = match self.action_params {
            Some(params) => Some(params),
            None => existing_params,
        };
        if self.action is Some && !is_action(action) {
            Some(invalid_action_text(action))
        } else if self.config is Some && settings_problem(
            self.config->0.fields@,
            failure,
        ) is Some {
            settings_problem(self.config->0.fields@, failure)
        } else {
            params_problem(action, params)
        }
    }

    /// Why the pattern of the request is no regular expression, where it has one that is none.
    pub open spec fn failure(self) -> Option<Seq<char>> {
        match self.config {
            Some(config) => pattern_failure(config),
            None => None,
        }
    }

    /// Whether the request can be carried out on a rule, from why its pattern could not be
    /// compiled, where it could not.
    pub fn check_after(
        &self,
        existing_action: &str,
        existing_params: Option<ActionParams>,
        failure: Option<&str>,
    ) -> (res: ApiResult<()>)
        ensures
            match self.problem(existing_action@, existing_params, view_reason(failure)) {
                Some(problem) => error::fails(res, ErrorKind::Validation, problem),
                None => res is Ok,
            },
    {
        if let Some(action) = &self.action {
            match validate_action(action.as_str()) {
                Ok(_) => {},
                Err(e) => {
                    return Err(e);
                },
            }
        }
        if let Some(config) = &self.config {
            match check_settings(&config.fields, failure) {
                Ok(_) => {},
                Err(e) => {
                    return Err(e);
                },
            }
        }
        let action: &str = match &self.action {
            Some(action) => action.as_str(),
            None => existing_action,
        };
        let params: Option<ActionParams> = match self.action_params {
            Some(params) => Some(params),
            None => existing_params,
        };
        validate_action_params(action, params)
    }

    /// Whether the request can be carried out on a rule.
    pub fn check(&self, existing_action: &str, existing_params: Option<ActionParams>) -> (res:
        ApiResult<()>)
        ensures
            match self.problem(existing_action@, existing_params, self.failure()) {
                Some(problem) => error::fails(res, ErrorKind::Validation, problem),
                None => res is Ok,
            },
    {
        let failure: Option<String> = match &self.config {
            Some(config) => find_failure(config),
            None => None,
        };
        self.check_after(existing_action, existing_params, as_reason(&failure))
    }
}

/// The priorities of rules in a new order: the first has the highest, the last has 1.
pub fn priorities(rule_ids: &Vec<Uuid>) -> (res: Vec<(Uuid, i32)>)
    ensures
        res@ == Seq::new(
            rule_ids@.len(),
            |i: int| (rule_ids@[i], (rule_ids@.len() - i) as i32),
        ),
{
    let mut res: Vec<(Uuid, i32)> = Vec::new();
    while res.len() < rule_ids.len()
        invariant
            res@.len() <= rule_ids@.len(),
            forall|i: int|
                0 <= i < res@.len() ==> #[trigger] res@[i] == (
                    rule_ids@[i],
                    (rule_ids@.len() - i) as i32,
                ),
        decreases rule_ids@.len() - res@.len(),
    {
        let index: usize = res.len();
        let priority: i32 =
            #[verifier::truncate]
            ((rule_ids.len() - index) as i32);
        res.push((rule_ids[index], priority));
    }
    proof {
        assert(res@ =~= Seq::new(
            rule_ids@.len(),
            |i: int| (rule_ids@[i], (rule_ids@.len() - i) as i32),
        ));
    }
    res
}

/// In a new order every rule has a higher priority than the ones behind it.
pub proof fn new_order_is_strict(ids: Seq<Uuid>, assigned: Seq<(Uuid, i32)>)
    requires
        ids.len() <= i32::MAX,
        assigned == Seq::new(ids.len(), |i: int| (ids[i], (ids.len() - i) as i32)),
    ensures
        forall|i: int, j: int|
            0 <= i < j < assigned.len() ==> (#[trigger] assigned[i]).1 > (
            #[trigger] assigned[j]).1,
        forall|i: int| 0 <= i < assigned.len() ==> 1 <= (#[trigger] assigned[i]).1 <= ids.len(),
{
}

/// The text of a field of an article.
pub open spec fn field_text(article: ArticleForPreview, field: Seq<char>) -> Option<Seq<char>> {
    if field == "title"@ {
        Some(article.title@)
    } else if field == "content"@ {
        text::view_opt(article.content)
    } else if field == "summary"@ {
        text::view_opt(article.summary)
    } else if field == "author"@ {
        text::view_opt(article.author)
    } else if field == "url"@ {
        text::view_opt(article.url)
    } else {
        None
    }
}

/// Where a rule matches in a field of an article.
pub open spec fn field_match(
    source: (Seq<char>, bool),
    article: ArticleForPreview,
    field: Seq<char>,
) -> Option<(usize, usize)> {
    match field_text(article, field) {
        Some(body) => pattern::first_match(source.0, source.1, body),
        None => None,
    }
}

/// The first field, from `i` on, in which a rule matches.
pub open spec fn first_hit(
    source: (Seq<char>, bool),
    fields: Seq<String>,
    article: ArticleForPreview,
    i: int,
) -> Option<int>
    decreases fields.len() - i,
{
    if i >= fields.len() || i < 0 {
        None
    } else if field_match(source, article, fields[i]@) is Some {
        Some(i)
    } else {
        first_hit(source, fields, article, i + 1)
    }
}

/// The start of what is shown of a match: 20 bytes before it, or the start of the text.
pub open spec fn context_start(found: (usize, usize)) -> int {
    if found.0 <= 20 {
        0
    } else {
        found.0 - 20
    }
}

/// The end of what is shown of a match: 20 bytes behind it, or the end of the text.
pub open spec fn context_end(found: (usize, usize), length: nat) -> int {
    if found.1 + 20 <= length {
        found.1 + 20
    } else {
        length as int
    }
}

/// What is shown of a match, with dots where the text goes on.
pub open spec fn context(body: Seq<char>, found: (usize, usize)) -> Seq<char> {
    let length = vstd::utf8::encode_utf8(body).len();
    let start = context_start(found);
    let end = context_end(found, length);
    (if start > 0 {
        "..."@
    } else {
        Seq::empty()
    }) + text::cut(body, start, end) + if end < length {
        "..."@
    } else {
        Seq::empty()
    }
}

/// Whether what is shown of a match begins and ends between two characters.
pub open spec fn is_showable(body: Seq<char>, found: (usize, usize)) -> bool {
    let length = vstd::utf8::encode_utf8(body).len();
    &&& text::is_boundary(body, context_start(found))
    &&& text::is_boundary(body, context_end(found, length))
}

/// Where a rule matches an article: in which of its fields, and between which bytes of it.
#[derive(Clone, Copy, Debug, PartialEq, Eq, Structural)]
pub struct FoundAt {
    pub field: usize,
    pub start: usize,
    pub end: usize,
}

/// Where a rule matches an article, in the first of its fields in which it does.
pub open spec fn place_in(
    source: (Seq<char>, bool),
    fields: Seq<String>,
    article: ArticleForPreview,
) -> Option<FoundAt> {
    match first_hit(source, fields, article, 0) {
        Some(i) => {
            let found = field_match(source, article, fields[i]@)->0;
            Some(FoundAt { field: i as usize, start: found.0, end: found.1 })
        },
        None => None,
    }
}

/// Where a rule matches each of some articles.
pub open spec fn places_in(
    source: (Seq<char>, bool),
    fields: Seq<String>,
    articles: Seq<ArticleForPreview>,
) -> Seq<Option<FoundAt>> {
    Seq::new(articles.len(), |i: int| place_in(source, fields, articles[i]))
}

/// Whether a match lies in a field that the article has.
pub open spec fn lies_in(
    found: Option<FoundAt>,
    fields: Seq<String>,
    article: ArticleForPreview,
) -> bool {
    found matches Some(at) ==> {
        &&& at.field < fields.len()
        &&& field_text(article, fields[at.field as int]@) matches Some(body)
        &&& at.start <= at.end <= vstd::utf8::encode_utf8(body).len()
    }
}

/// Whether a match, if there is one, can be shown.
pub open spec fn can_show(
    found: Option<FoundAt>,
    fields: Seq<String>,
    article: ArticleForPreview,
) -> bool {
    found matches Some(at) ==> is_showable(
        field_text(article, fields[at.field as int]@)->0,
        (at.start, at.end),
    )
}

/// Whether `shown` shows a match in an article.
pub open spec fn shows_match(
    shown: PreviewMatch,
    found: FoundAt,
    fields: Seq<String>,
    article: ArticleForPreview,
) -> bool {
    &&& shown.article_id == article.id
    &&& shown.title@ == article.title@
    &&& shown.matched_field@ == fields[found.field as int]@
    &&& shown.matched_text@ == context(
        field_text(article, fields[found.field as int]@)->0,
        (found.start, found.end),
    )
}

/// The first ten of some items.
pub open spec fn at_most_ten(n: nat) -> nat {
    if n <= 10 {
        n
    } else {
        10
    }
}

/// The test for an article that is matched.
pub open spec fn is_hit(found: Seq<Option<FoundAt>>) -> spec_fn(int) -> bool {
    |i: int| found[i] is Some
}

/// Which articles are matched, in their order.
pub open spec fn hits(found: Seq<Option<FoundAt>>) -> Seq<int> {
    Seq::new(found.len(), |i: int| i).filter(is_hit(found))
}

/// Whether `data` tells what a rule would do to some articles: it counts those that the rule
/// matches, each once, and shows the first ten of them.
pub open spec fn is_preview(
    data: PreviewData,
    fields: Seq<String>,
    articles: Seq<ArticleForPreview>,
    found: Seq<Option<FoundAt>>,
) -> bool {
    &&& data.total_articles == articles.len()
    &&& data.matched_articles == hits(found).len()
    &&& data.sample_matches@.len() == at_most_ten(hits(found).len())
    &&& forall|k: int|
        0 <= k < data.sample_matches@.len() ==> shows_match(
            #[trigger] data.sample_matches@[k],
            found[hits(found)[k]]->0,
            fields,
            articles[hits(found)[k]],
        )
}

fn text_of_field<'a>(article: &'a ArticleForPreview, field: &str) -> (res: Option<&'a str>)
    ensures
        match res {
            Some(body) => field_text(*article, field@) == Some(body@),
            None => field_text(*article, field@) is None,
        },
{
    let optional: &Option<String> = if text::same(field, "title") {
        return Some(article.title.as_str());
    } else if text::same(field, "content") {
        &article.content
    } else if text::same(field, "summary") {
        &article.summary
    } else if text::same(field, "author") {
        &article.author
    } else if text::same(field, "url") {
        &article.url
    } else {
        return None;
    };
    match optional {
        Some(body) => Some(body.as_str()),
        None => None,
    }
}

fn context_bounds(body: &str, found: (usize, usize)) -> (res: (usize, usize))
    requires
        found.0 <= found.1 <= body.spec_bytes().len(),
    ensures
        res.0 == context_start(found),
        res.1 == context_end(found, body.spec_bytes().len()),
        res.0 <= res.1 <= body.spec_bytes().len(),
{
    let start: usize = if found.0 <= 20 {
        0
    } else {
        found.0 - 20
    };
    let length: usize = body.as_bytes().len();
    let end: usize = if length - found.1 >= 20 {
        found.1 + 20
    } else {
        length
    };
    (start, end)
}

/// What is shown of a match.
pub fn context_of(body: &str, found: (usize, usize)) -> (res: String)
    requires
        found.0 <= found.1 <= body.spec_bytes().len(),
        is_showable(body@, found),
    ensures
        res@ == context(body@, found),
{
    let (start, end) = context_bounds(body, found);
    let mut res: String = String::new();
    if start > 0 {
        res.append("...");
    }
    let ghost before = res@;
    res.append(text::slice(body, start, end).as_str());
    if end < body.as_bytes().len() {
        res.append("...");
    }
    proof {
        assert(res@ =~= context(body@, found));
    }
    res
}

/// Where a rule matches an article.
fn find_place(compiled: &Pattern, fields: &Vec<String>, article: &ArticleForPreview) -> (res:
    Option<FoundAt>)
    ensures
        res == place_in(compiled@, fields@, *article),
        lies_in(res, fields@, *article),
{
    let mut i: usize = 0;
    while i < fields.len()
        invariant
            i <= fields@.len(),
            first_hit(compiled@, fields@, *article, 0) == first_hit(
                compiled@,
                fields@,
                *article,
                i as int,
            ),
        decreases fields@.len() - i,
    {
        if let Some(body) = text_of_field(article, fields[i].as_str()) {
            if let Some((start, end)) = pattern::find(compiled, body) {
                return Some(FoundAt { field: i, start, end });
            }
        }
        i += 1;
    }
    None
}

/// What a rule would do to some articles, from where it matches each of them.
pub fn preview_data(
    fields: &Vec<String>,
    articles: &Vec<ArticleForPreview>,
    found: &Vec<Option<FoundAt>>,
) -> (res: PreviewData)
    requires
        found@.len() == articles@.len() <= i64::MAX,
        forall|i: int|
            0 <= i < found@.len() ==> lies_in(#[trigger] found@[i], fields@, articles@[i])
                && can_show(found@[i], fields@, articles@[i]),
    ensures
        is_preview(res, fields@, articles@, found@),
{
    let ghost all = Seq::new(found@.len(), |i: int| i);
    let ghost test = is_hit(found@);
    let mut matched_articles: i64 = 0;
    let mut sample_matches: Vec<PreviewMatch> = Vec::new();
    let mut i: usize = 0;
    proof {
        lists::lemma_filter_all(all, test);
    }
    while i < articles.len()
        invariant
            i <= found@.len() == articles@.len() <= i64::MAX,
            all == Seq::new(found@.len(), |i: int| i),
            test == is_hit(found@),
            forall|i: int|
                0 <= i < found@.len() ==> lies_in(#[trigger] found@[i], fields@, articles@[i])
                    && can_show(found@[i], fields@, articles@[i]),
            matched_articles == all.take(i as int).filter(test).len(),
            matched_articles <= i,
            sample_matches@.len() == at_most_ten(all.take(i as int).filter(test).len()),
            forall|k: int|
                0 <= k < sample_matches@.len() ==> shows_match(
                    #[trigger] sample_matches@[k],
                    found@[all.take(i as int).filter(test)[k]]->0,
                    fields@,
                    articles@[all.take(i as int).filter(test)[k]],
                ),
        decreases articles@.len() - i,
    {
        let article: &ArticleForPreview = &articles[i];
        proof {
            lists::lemma_filter_step(all, i as int, test);
            assert(lies_in(found@[i as int], fields@, articles@[i as int]));
        }
        if let Some(at) = found[i] {
            matched_articles = matched_articles + 1;
            if sample_matches.len() < 10 {
                if let Some(body) = text_of_field(article, fields[at.field].as_str()) {
                    sample_matches.push(
                        PreviewMatch {
                            article_id: article.id,
                            title: article.title.clone(),
                            matched_field: fields[at.field].clone(),
                            matched_text: context_of(body, (at.start, at.end)),
                        },
                    );
                }
            }
        }
        i += 1;
    }
    PreviewData { total_articles: articles.len() as i64, matched_articles, sample_matches }
}

/// What a rule would do to some articles, unless what would be shown of a match begins or
/// ends inside a character.
pub fn preview_articles(
    compiled: &Pattern,
    fields: &Vec<String>,
    articles: &Vec<ArticleForPreview>,
) -> (res: Option<PreviewData>)
    requires
        articles@.len() <= i64::MAX,
    ensures
        match res {
            Some(data) => {
                &&& is_preview(data, fields@, articles@, places_in(compiled@, fields@, articles@))
                &&& forall|i: int|
                    0 <= i < articles@.len() ==> can_show(
                        place_in(compiled@, fields@, articles@[i]),
                        fields@,
                        #[trigger] articles@[i],
                    )
            },
            None => exists|i: int|
                0 <= i < articles@.len() && !can_show(
                    place_in(compiled@, fields@, articles@[i]),
                    fields@,
                    #[trigger] articles@[i],
                ),
        },
{
    let mut found: Vec<Option<FoundAt>> = Vec::new();
    while found.len() < articles.len()
        invariant
            found@.len() <= articles@.len(),
            forall|k: int|
                0 <= k < found@.len() ==> {
                    &&& #[trigger] found@[k] == place_in(compiled@, fields@, articles@[k])
                    &&& lies_in(found@[k], fields@, articles@[k])
                    &&& can_show(found@[k], fields@, articles@[k])
                },
        decreases articles@.len() - found@.len(),
    {
        let i: usize = found.len();
        let article: &ArticleForPreview = &articles[i];
        let place: Option<FoundAt> = find_place(compiled, fields, article);
        if let Some(at) = place {
            if let Some(body) = text_of_field(article, fields[at.field].as_str()) {
                let (start, end) = context_bounds(body, (at.start, at.end));
                if !body.is_char_boundary(start) || !body.is_char_boundary(end) {
                    proof {
                        assert(!can_show(
                            place_in(compiled@, fields@, articles@[i as int]),
                            fields@,
                            articles@[i as int],
                        ));
                    }
                    return None;
                }
            }
        }
        found.push(place);
    }
    proof {
        assert(found@ =~= places_in(compiled@, fields@, articles@));
        assert forall|i: int| 0 <= i < articles@.len() implies can_show(
            place_in(compiled@, fields@, articles@[i]),
            fields@,
            #[trigger] articles@[i],
        ) by {
            assert(found@[i] == place_in(compiled@, fields@, articles@[i]));
        }
    }
    Some(preview_data(fields, articles, &found))
}

/// A rule matches no more articles than there are, and at most ten of them are shown.
pub proof fn preview_is_bounded(
    data: PreviewData,
    fields: Seq<String>,
    articles: Seq<ArticleForPreview>,
    found: Seq<Option<FoundAt>>,
)
    requires
        found.len() == articles.len(),
        is_preview(data, fields, articles, found),
    ensures
        data.matched_articles <= data.total_articles,
        data.sample_matches@.len() <= 10,
        data.sample_matches@.len() <= data.matched_articles,
{
    Seq::new(found.len(), |i: int| i).lemma_filter_len(is_hit(found));
}

/// What goes with a list of some rules.
pub fn list_meta(count: usize) -> (res: ListMeta)
    ensures
        res.total == count as i64,
{
    ListMeta {
        total:
            #[verifier::truncate]
            (count as i64),
    }
}

/// A rule is tried out on as many articles as were asked for, but never on more than 100, and on
/// none from before the last seven days.
pub proof fn preview_looks_at_recent_articles(
    asked: i32,
    limit: i32,
    now: Timestamp,
    since: Timestamp,
)
    requires
        call_ensures(preview_limit, (asked,), limit),
        time::has_days_before(now, 7),
        call_ensures(preview_since, (now,), since),
    ensures
        limit <= 100,
        limit <= asked,
        limit == asked || limit == 100,
        now.at() - since.at() == 7 * 86_400_000_000_000,
{
}

/// The settings of a rule are accepted if and only if its pattern is a regular expression and it
/// names at least one field and no field but those of an article. A bad pattern is told before a
/// bad field.
pub proof fn settings_are_accepted_where_all_is_well(
    fields: Vec<String>,
    failure: Option<&str>,
    res: ApiResult<()>,
)
    requires
        call_ensures(check_settings, (&fields, failure), res),
    ensures
        res is Ok <==> failure is None && fields@.len() > 0 && forall|i: int|
            0 <= i < fields@.len() ==> is_field((#[trigger] fields@[i])@),
        res matches Err(e) ==> e@.0 == ErrorKind::Validation,
        failure matches Some(reason) ==> res is Err && text::ends_with(res->Err_0@.1, reason@),
        failure is None && fields@.len() == 0 ==> error::fails(
            res,
            ErrorKind::Validation,
            "At least one field must be specified"@,
        ),
        forall|i: int|
            failure is None && 0 <= i < fields@.len() && !is_field((#[trigger] fields@[i])@) && (
            forall|j: int| 0 <= j < i ==> is_field((#[trigger] fields@[j])@)) ==> error::fails(
                res,
                ErrorKind::Validation,
                invalid_field_text(fields@[i]@),
            ),
{
    lemma_bad_field(fields@, 0);
    if let Some(reason) = failure {
        let said = "Invalid regex pattern: "@ + reason@;
        assert(said.skip(said.len() - reason@.len()) =~= reason@);
    }
}

proof fn lemma_bad_field(fields: Seq<String>, from: int)
    requires
        0 <= from <= fields.len(),
    ensures
        bad_field(fields, from) is None <==> forall|i: int|
            from <= i < fields.len() ==> is_field((#[trigger] fields[i])@),
        forall|i: int|
            from <= i < fields.len() && !is_field((#[trigger] fields[i])@) && (forall|j: int|
                from <= j < i ==> is_field((#[trigger] fields[j])@)) ==> bad_field(fields, from)
                == Some(fields[i]@),
    decreases fields.len() - from,
{
    if from < fields.len() {
        lemma_bad_field(fields, from + 1);
        if is_field(fields[from]@) {
            if bad_field(fields, from) is None {
                assert forall|i: int| from <= i < fields.len() implies is_field(
                    (#[trigger] fields[i])@,
                ) by {
                    if i > from {
                        assert(bad_field(fields, from + 1) is None);
                    }
                }
            }
        }
    }
}

/// The fields that a rule can name are those that an article has, and each is the one of its name.
pub proof fn named_field_is_looked_at(article: ArticleForPreview, field: Seq<char>)
    ensures
        field_text(article, "title"@) == Some(article.title@),
        field_text(article, "content"@) == text::view_opt(article.content),
        field_text(article, "summary"@) == text::view_opt(article.summary),
        field_text(article, "author"@) == text::view_opt(article.author),
        field_text(article, "url"@) == text::view_opt(article.url),
        field_text(article, field) is Some ==> is_field(field),
        article.content is Some && article.summary is Some && article.author is Some
            && article.url is Some && is_field(field) ==> field_text(article, field) is Some,
{
    lemma_field_names();
}

proof fn lemma_field_names()
    ensures
        "title"@ != "content"@ && "title"@ != "summary"@ && "title"@ != "author"@ && "title"@
            != "url"@,
        "content"@ != "summary"@ && "content"@ != "author"@ && "content"@ != "url"@,
        "summary"@ != "author"@ && "summary"@ != "url"@,
        "author"@ != "url"@,
{
    reveal_strlit("title");
    reveal_strlit("content");
    reveal_strlit("summary");
    reveal_strlit("author");
    reveal_strlit("url");
    assert("title"@.len() == 5 && "content"@.len() == 7 && "summary"@.len() == 7);
    assert("author"@.len() == 6 && "url"@.len() == 3);
    assert("content"@[0] != "summary"@[0]);
}

/// An action is accepted if and only if it is one of the four, and what is accepted takes effect
/// on the articles that the rule matches, but for tagging, which is only recorded.
pub proof fn accepted_actions_take_effect(action: &str, res: ApiResult<()>)
    requires
        call_ensures(validate_action, (action,), res),
    ensures
        res is Ok <==> action@ == "tag"@ || queue::effect_of(action@)
            != queue::RuleEffect::Record,
        res matches Err(e) ==> e@.0 == ErrorKind::Validation && text::occurs_in(action@, e@.1),
{
    reveal_strlit("hide");
    reveal_strlit("star");
    reveal_strlit("tag");
    reveal_strlit("mark_read");
    assert("hide"@.len() == 4 && "star"@.len() == 4 && "tag"@.len() == 3 && "mark_read"@.len()
        == 9);
    let said = invalid_action_text(action@);
    let at = "Invalid action '"@.len() as int;
    assert(said.skip(at).take(action@.len() as int) =~= action@);
    assert(text::begins_with(said.skip(at), action@));
}

/// What goes with an action matters for tagging alone, which needs at least one tag.
pub proof fn tagging_needs_tags(action: &str, params: Option<ActionParams>, res: ApiResult<()>)
    requires
        call_ensures(validate_action_params, (action, params), res),
    ensures
        action@ != "tag"@ ==> res is Ok,
        action@ == "tag"@ ==> (res is Ok <==> params is Some && params->0.tags is Some
            && params->0.tags->0 > 0),
        res matches Err(e) ==> e@.0 == ErrorKind::Validation,
{
}

/// A new rule is stored as it was asked for: with its action in lowercase, its own type, priority
/// and whether it stops, and with `regex`, 0 and going on where nothing was asked for. It is
/// refused where its action, its settings or what goes with its action is.
pub proof fn new_rule_is_stored_as_asked(
    request: CreateRuleRequest,
    failure: Option<&str>,
    res: ApiResult<NewRule>,
)
    requires
        call_ensures(CreateRuleRequest::plan_after, (&request, failure), res),
    ensures
        res is Ok <==> is_action(text::lowercase(request.action@)) && failure is None
            && request.config.fields@.len() > 0 && (forall|i: int|
            0 <= i < request.config.fields@.len() ==> is_field(
                (#[trigger] request.config.fields@[i])@,
            )) && (text::lowercase(request.action@) == "tag"@ ==> request.action_params is Some
            && request.action_params->0.tags is Some && request.action_params->0.tags->0 > 0),
        res matches Ok(rule) ==> {
            &&& rule.action@ == text::lowercase(request.action@)
            &&& request.rule_type matches Some(t) ==> rule.rule_type@ == t@
            &&& request.rule_type is None ==> rule.rule_type@ == "regex"@
            &&& request.priority matches Some(p) ==> rule.priority == p
            &&& request.priority is None ==> rule.priority == 0
            &&& rule.stop_on_match <==> request.stop_on_match == Some(true)
        },
        res matches Err(e) ==> e@.0 == ErrorKind::Validation,
{
    lemma_bad_field(request.config.fields@, 0);
}

/// A change of a rule is carried out if and only if a new action is one, new settings are
/// accepted, and the action that the rule then has goes with what it then has: what the request
/// leaves out stays as it is.
pub proof fn changed_rule_must_hang_together(
    request: UpdateRuleRequest,
    existing_action: &str,
    existing_params: Option<ActionParams>,
    failure: Option<&str>,
    res: ApiResult<()>,
)
    requires
        call_ensures(
            UpdateRuleRequest::check_after,
            (&request, existing_action, existing_params, failure),
            res,
        ),
    ensures
        ({
            let action = if request.action is Some {
                request.action->0@
            } else {
                existing_action@
            };
            let params = if request.action_params is Some {
                request.action_params
            } else {
                existing_params
            };
            &&& res is Ok <==> {
                &&& request.action is Some ==> is_action(action)
                &&& request.config is Some ==> failure is None
                    && request.config->0.fields@.len() > 0 && forall|i: int|
                    0 <= i < request.config->0.fields@.len() ==> is_field(
                        (#[trigger] request.config->0.fields@[i])@,
                    )
                &&& action == "tag"@ ==> params is Some && params->0.tags is Some
                    && params->0.tags->0 > 0
            }
            &&& res matches Err(e) ==> e@.0 == ErrorKind::Validation
        }),
{
    if let Some(config) = request.config {
        lemma_bad_field(config.fields@, 0);
    }
}

/// A new rule must be for what is there, and a user can have no more rules than they may.
pub proof fn rule_is_for_what_is_there(
    request: CreateRuleRequest,
    feed_exists: bool,
    folder_exists: bool,
    targets: ApiResult<()>,
    count: i64,
    max: i64,
    limit: ApiResult<()>,
)
    requires
        call_ensures(
            CreateRuleRequest::check_targets,
            (&request, feed_exists, folder_exists),
            targets,
        ),
        call_ensures(check_rule_limit, (count, max), limit),
    ensures
        targets is Ok <==> (request.feed_id is None || feed_exists) && (request.folder_id is None
            || folder_exists),
        targets matches Err(e) ==> e@.0 == ErrorKind::NotFound,
        limit is Ok <==> count + 1 <= max,
        limit matches Err(e) ==> e@.0 == ErrorKind::Forbidden,
{
}

/// A list of rules is narrowed by the feed where one is named, else by the folder, else by whether
/// rules are switched on, and a preview by the feed, else by the folder.
pub proof fn narrowest_wish_counts(
    query: ListRulesQuery,
    listed: RuleScope,
    request: PreviewRuleRequest,
    tried: PreviewScope,
)
    requires
        call_ensures(ListRulesQuery::scope, (&query,), listed),
        call_ensures(PreviewRuleRequest::scope, (&request,), tried),
    ensures
        forall|feed: Uuid| listed == RuleScope::Feed(feed) <==> query.feed_id == Some(feed),
        forall|folder: Uuid|
            listed == RuleScope::Folder(folder) <==> query.feed_id is None && query.folder_id
                == Some(folder),
        forall|active: bool|
            listed == RuleScope::Active(active) <==> query.feed_id is None
                && query.folder_id is None && query.is_active == Some(active),
        forall|feed: Uuid| tried == PreviewScope::Feed(feed) <==> request.feed_id == Some(feed),
        forall|folder: Uuid|
            tried == PreviewScope::Folder(folder) <==> request.feed_id is None
                && request.folder_id == Some(folder),
{
}

/// In a new order the rules come in the order that was asked for: each keeps its id, the last has
/// the priority 1, and each has one more than the one behind it.
pub proof fn new_order_is_the_one_asked_for(ids: Vec<Uuid>, assigned: Vec<(Uuid, i32)>)
    requires
        ids@.len() <= i32::MAX,
        call_ensures(priorities, (&ids,), assigned),
    ensures
        assigned@.len() == ids@.len(),
        forall|i: int| 0 <= i < ids@.len() ==> (#[trigger] assigned@[i]).0 == ids@[i],
        ids@.len() > 0 ==> assigned@.last().1 == 1,
        forall|i: int|
            0 <= i < ids@.len() - 1 ==> (#[trigger] assigned@[i]).1 == assigned@[i + 1].1 + 1,
{
}

/// An article is matched in the first of the fields of a rule in which the rule is found, at the
/// place where it is found there, and is not matched where it is found in none.
pub proof fn first_field_that_matches_counts(
    source: (Seq<char>, bool),
    fields: Seq<String>,
    article: ArticleForPreview,
)
    requires
        fields.len() <= usize::MAX,
    ensures
        match place_in(source, fields, article) {
            Some(at) => {
                &&& at.field < fields.len()
                &&& field_text(article, fields[at.field as int]@) is Some
                &&& pattern::first_match(
                    source.0,
                    source.1,
                    field_text(article, fields[at.field as int]@)->0,
                ) == Some((at.start, at.end))
                &&& forall|j: int|
                    0 <= j < at.field ==> {
                        let body = field_text(article, (#[trigger] fields[j])@);
                        body is None || pattern::first_match(source.0, source.1, body->0) is None
                    }
            },
            None => forall|j: int|
                0 <= j < fields.len() ==> {
                    let body = field_text(article, (#[trigger] fields[j])@);
                    body is None || pattern::first_match(source.0, source.1, body->0) is None
                },
        },
{
    lemma_first_hit(source, fields, article, 0);
}

proof fn lemma_first_hit(
    source: (Seq<char>, bool),
    fields: Seq<String>,
    article: ArticleForPreview,
    from: int,
)
    requires
        0 <= from <= fields.len(),
    ensures
        match first_hit(source, fields, article, from) {
            Some(i) => from <= i < fields.len() && field_match(source, article, fields[i]@) is Some
                && forall|j: int|
                from <= j < i ==> field_match(source, article, (#[trigger] fields[j])@) is None,
            None => forall|j: int|
                from <= j < fields.len() ==> field_match(
                    source,
                    article,
                    (#[trigger] fields[j])@,
                ) is None,
        },
    decreases fields.len() - from,
{
    if from < fields.len() && field_match(source, article, fields[from]@) is None {
        lemma_first_hit(source, fields, article, from + 1);
    }
}

/// What is shown of a match holds the match, with up to 20 bytes of the text on either side, and
/// dots where the text goes on beyond those, and there alone.
pub proof fn match_is_shown_in_its_context(body: Seq<char>, found: (usize, usize))
    requires
        found.0 <= found.1 <= vstd::utf8::encode_utf8(body).len(),
        is_showable(body, found),
    ensures
        ({
            let bytes = vstd::utf8::encode_utf8(body);
            let shown = context(body, found);
            let before = if found.0 > 20 {
                "..."@
            } else {
                Seq::empty()
            };
            let behind = if bytes.len() - found.1 > 20 {
                "..."@
            } else {
                Seq::empty()
            };
            let start = if found.0 > 20 {
                found.0 - 20
            } else {
                0
            };
            let end = if bytes.len() - found.1 > 20 {
                found.1 + 20
            } else {
                bytes.len() as int
            };
            &&& text::begins_with(shown, before)
            &&& text::ends_with(shown, behind)
            &&& before.len() + behind.len() <= shown.len()
            &&& vstd::utf8::encode_utf8(
                shown.subrange(before.len() as int, shown.len() - behind.len()),
            ) == bytes.subrange(start, end)
            &&& start <= found.0 && found.1 <= end
            &&& found.0 - start <= 20 && end - found.1 <= 20
        }),
{
    let bytes = vstd::utf8::encode_utf8(body);
    let shown = context(body, found);
    let start = context_start(found);
    let end = context_end(found, bytes.len());
    let middle = text::cut(body, start, end);
    text::lemma_cut_bytes(body, start, end);
    reveal_strlit("...");
    let before: Seq<char> = if start > 0 {
        "..."@
    } else {
        Seq::empty()
    };
    let behind: Seq<char> = if end < bytes.len() {
        "..."@
    } else {
        Seq::empty()
    };
    assert(shown =~= before + middle + behind);
    assert(shown.take(before.len() as int) =~= before);
    assert(shown.skip(shown.len() - behind.len()) =~= behind);
    assert(shown.subrange(before.len() as int, shown.len() - behind.len()) =~= middle);
}

/// A preview counts the articles that the rule matches and shows the first of them: it shows as
/// many as there are, up to ten, each with its own id, title and field, and none twice.
pub proof fn preview_shows_the_first_matches(
    data: PreviewData,
    fields: Seq<String>,
    articles: Seq<ArticleForPreview>,
    found: Seq<Option<FoundAt>>,
) -> (order: Seq<int>)
    requires
        found.len() == articles.len(),
        is_preview(data, fields, articles, found),
    ensures
        forall|j: int, k: int| 0 <= j < k < order.len() ==> #[trigger] order[j] < #[trigger] order[k],
        forall|i: int|
            0 <= i < found.len() && (#[trigger] found[i]) is Some <==> order.contains(i),
        data.total_articles == articles.len(),
        data.matched_articles == order.len(),
        data.sample_matches@.len() == if order.len() <= 10 {
            order.len() as int
        } else {
            10
        },
        forall|k: int|
            0 <= k < data.sample_matches@.len() ==> {
                let shown = #[trigger] data.sample_matches@[k];
                let article = articles[order[k]];
                let at = found[order[k]]->0;
                &&& shown.article_id == article.id
                &&& shown.title@ == article.title@
                &&& shown.matched_field@ == fields[at.field as int]@
                &&& shown.matched_text@ == context(
                    field_text(article, fields[at.field as int]@)->0,
                    (at.start, at.end),
                )
            },
{
    let all = Seq::new(found.len(), |i: int| i);
    let order = hits(found);
    lemma_filtered_order(all, is_hit(found));
    assert forall|i: int|
        0 <= i < found.len() && (#[trigger] found[i]) is Some <==> order.contains(i) by {
        if 0 <= i < found.len() && found[i] is Some {
            assert(all[i] == i);
            all.lemma_filter_contains(is_hit(found), i);
        }
        if order.contains(i) {
            let k = choose|k: int| 0 <= k < order.len() && order[k] == i;
            lists::lemma_filter_member(all, is_hit(found), k);
            let m = choose|m: int| 0 <= m < all.len() && all[m] == i;
            assert(m == i);
        }
    }
    order
}

proof fn lemma_filtered_order(all: Seq<int>, test: spec_fn(int) -> bool)
    requires
        forall|j: int, k: int| 0 <= j < k < all.len() ==> #[trigger] all[j] < #[trigger] all[k],
    ensures
        forall|j: int, k: int|
            0 <= j < k < all.filter(test).len() ==> #[trigger] all.filter(test)[j]
                < #[trigger] all.filter(test)[k],
    decreases all.len(),
{
    reveal(Seq::filter);
    if all.len() > 0 {
        let fewer = all.drop_last();
        lemma_filtered_order(fewer, test);
        let kept = all.filter(test);
        assert forall|j: int, k: int| 0 <= j < k < kept.len() implies #[trigger] kept[j]
            < #[trigger] kept[k] by {
            if test(all.last()) && k == kept.len() - 1 {
                lists::lemma_filter_member(fewer, test, j);
                let m = choose|m: int| 0 <= m < fewer.len() && fewer[m] == kept[j];
                assert(all[m] < all[all.len() - 1]);
            }
        }
    }
}

/// A rule is compiled from its own pattern, ignoring case unless case counts, and tried out on the
/// articles in its own fields.
pub proof fn preview_tries_the_rule_itself(config: RuleConfig, res: ApiResult<Pattern>)
    requires
        call_ensures(validate_config, (&config,), res),
    ensures
        res matches Ok(compiled) ==> compiled@.0 == config.pattern@ && (compiled@.1 <==>
            !config.case_sensitive),
        res is Ok <==> pattern::compiled(config.pattern@, !config.case_sensitive) is Ok
            && config.fields@.len() > 0 && forall|i: int|
            0 <= i < config.fields@.len() ==> is_field((#[trigger] config.fields@[i])@),
{
    lemma_bad_field(config.fields@, 0);
}

/// A preview looks for the pattern in the title where nothing else was asked for, and shows what
/// it found in its context.
pub proof fn preview_is_of_what_was_found(
    usual: Vec<String>,
    fields: Vec<String>,
    articles: Vec<ArticleForPreview>,
    found: Vec<Option<FoundAt>>,
    data: PreviewData,
    body: &str,
    place: (usize, usize),
    shown: String,
)
    requires
        call_ensures(default_fields, (), usual),
        found@.len() == articles@.len(),
        call_ensures(preview_data, (&fields, &articles, &found), data),
        call_ensures(context_of, (body, place), shown),
    ensures
        usual@.len() == 1 && usual@[0]@ == "title"@,
        is_preview(data, fields@, articles@, found@),
        data.total_articles == articles@.len(),
        (forall|i: int| 0 <= i < found@.len() ==> (#[trigger] found@[i]) is None)
            ==> data.matched_articles == 0 && data.sample_matches@.len() == 0,
        shown@ == context(body@, place),
{
    assert(text::views(usual@).len() == usual@.len());
    assert(text::views(usual@)[0] == usual@[0]@);
    let order = preview_shows_the_first_matches(data, fields@, articles@, found@);
    if forall|i: int| 0 <= i < found@.len() ==> (#[trigger] found@[i]) is None {
        if order.len() > 0 {
            assert(order.contains(order[0]));
            assert(found@[order[0]] is Some);
        }
    }
}

/// A preview of articles is one of the places where the pattern is found in them.
pub proof fn preview_looks_for_the_pattern(
    compiled: Pattern,
    fields: Vec<String>,
    articles: Vec<ArticleForPreview>,
    res: Option<PreviewData>,
)
    requires
        call_ensures(preview_articles, (&compiled, &fields, &articles), res),
    ensures
        res matches Some(data) ==> is_preview(
            data,
            fields@,
            articles@,
            places_in(compiled@, fields@, articles@),
        ),
{
}

/// A rule that is refused is told why: with the action or the field that is none, with the reason
/// why its pattern is none, with what tagging needs, with how many rules there may be, or with
/// what it is to be for that is not there.
pub proof fn refused_rule_is_told_why(
    action: &str,
    acted: ApiResult<()>,
    fields: Vec<String>,
    reason: &str,
    compiled: ApiResult<()>,
    checked: ApiResult<()>,
    params: Option<ActionParams>,
    tagged: ApiResult<()>,
    count: i64,
    max: i64,
    limit: ApiResult<()>,
    request: CreateRuleRequest,
    targets: ApiResult<()>,
    i: int,
)
    requires
        call_ensures(validate_action, (action,), acted),
        call_ensures(check_settings, (&fields, Some(reason)), compiled),
        call_ensures(check_settings, (&fields, None), checked),
        call_ensures(validate_action_params, (action, params), tagged),
        call_ensures(check_rule_limit, (count, max), limit),
        call_ensures(CreateRuleRequest::check_targets, (&request, false, true), targets),
        0 <= i < fields@.len(),
        !is_field(fields@[i]@),
        forall|j: int| 0 <= j < i ==> is_field((#[trigger] fields@[j])@),
    ensures
        acted matches Err(e) ==> (e matches ApiError::Validation(m) && m@ == "Invalid action '"@
            + action@ + "'. Valid actions: hide, star, tag, mark_read"@),
        compiled matches Err(e) && (e matches ApiError::Validation(m) && m@
            == "Invalid regex pattern: "@ + reason@),
        checked matches Err(e) && (e matches ApiError::Validation(m) && m@ == "Invalid field '"@
            + fields@[i]@ + "'. Valid fields: title, content, summary, author, url"@),
        tagged matches Err(e) ==> (e matches ApiError::Validation(m) && m@ == if params is None {
            "Tag action requires action_params with 'tags' array"@
        } else {
            "Tag action requires 'tags' array in action_params"@
        }),
        limit is Ok <==> count < max,
        limit matches Err(e) ==> (e matches ApiError::Forbidden(m) && m@
            == "Rule limit reached ("@ + text::decimal(count as int) + "/"@ + text::decimal(
            max as int,
        ) + "). Upgrade to add more rules."@),
        request.feed_id is Some ==> (targets matches Err(e) && (e matches ApiError::NotFound(m)
            && m@ == "Feed not found"@)),
{
    settings_are_accepted_where_all_is_well(fields, None, checked);
}

} // verus!
