//! What the background jobs do with feeds, articles and rules.

use vstd::prelude::*;
use vstd::string::*;

use crate::ids::Uuid;
use crate::lists;
use crate::pattern;
use crate::pattern::Pattern;
use crate::text;

verus! {

/// An active rule that looks for a pattern, as it is stored. The pattern is missing where the
/// stored settings hold none.
#[derive(Debug)]
pub struct RuleRow {
    pub id: Uuid,
    pub pattern: Option<String>,
    pub case_sensitive: Option<bool>,
    pub action: String,
    pub stop_on_match: bool,
}

/// The text of an article, as it is stored.
#[derive(Debug)]
pub struct ArticleRow {
    pub id: Uuid,
    pub title: String,
    pub summary: Option<String>,
    pub content: Option<String>,
}

/// What a rule does to an article that it matches.
#[derive(Clone, Copy, Debug, PartialEq, Eq, Structural)]
pub enum RuleEffect {
    Hide,
    Star,
    MarkRead,
    /// Nothing is done, the match is only recorded.
    Record,
}

/// A match of a rule in an article.
#[derive(Debug)]
pub struct RuleHit {
    pub article_id: Uuid,
    pub rule_id: Uuid,
    pub effect: RuleEffect,
    pub action: String,
    pub matched_text: String,
}

/// What is known of a match.
#[verifier::ext_equal]
pub struct HitView {
    pub article_id: Uuid,
    pub rule_id: Uuid,
    pub effect: RuleEffect,
    pub action: Seq<char>,
    pub matched_text: Seq<char>,
}

impl View for RuleHit {
    type V = HitView;

    open spec fn view(&self) -> HitView {
        HitView {
            article_id: self.article_id,
            rule_id: self.rule_id,
            effect: self.effect,
            action: self.action@,
            matched_text: self.matched_text@,
        }
    }
}

/// What is known of several matches.
pub open spec fn hit_views(hits: Seq<RuleHit>) -> Seq<HitView> {
    hits.map_values(|h: RuleHit| h@)
}

/// What an action does.
pub open spec fn effect_of(action: Seq<char>) -> RuleEffect {
    if action == "hide"@ {
        RuleEffect::Hide
    } else if action == "star"@ {
        RuleEffect::Star
    } else if action == "mark_read"@ {
        RuleEffect::MarkRead
    } else {
        RuleEffect::Record
    }
}

/// The regular expression of a rule: its pattern, marked to ignore case unless case counts.
pub open spec fn rule_source(rule: RuleRow) -> Option<Seq<char>> {
    match rule.pattern {
        Some(source) => Some(
            if rule.case_sensitive == Some(true) {
                source@
            } else {
                "(?i)"@ + source@
            },
        ),
        None => None,
    }
}

/// Where a rule matches in a text. A rule without a regular expression never matches.
pub open spec fn rule_match(rule: RuleRow, body: Seq<char>) -> Option<(usize, usize)> {
    match rule_source(rule) {
        Some(source) => if pattern::compiled(source, false) is Ok {
            pattern::first_match(source, false, body)
        } else {
            None
        },
        None => None,
    }
}

/// The text of an article that rules look at: title, summary and content, with a space
/// between them.
pub open spec fn article_text(article: ArticleRow) -> Seq<char> {
    article.title@ + " "@ + text::or_empty(text::view_opt(article.summary)) + " "@
        + text::or_empty(text::view_opt(article.content))
}

/// The match of a rule in an article.
pub open spec fn hit_of(rule: RuleRow, article: ArticleRow, found: (usize, usize)) -> HitView {
    HitView {
        article_id: article.id,
        rule_id: rule.id,
        effect: effect_of(rule.action@),
        action: rule.action@,
        matched_text: text::cut(article_text(article), found.0 as int, found.1 as int),
    }
}

/// Whether a match of a rule lies in a text, and begins and ends between two characters.
pub open spec fn lies_in(found: Option<(usize, usize)>, body: Seq<char>) -> bool {
    found matches Some((start, end)) ==> {
        &&& start <= end <= vstd::utf8::encode_utf8(body).len()
        &&& text::is_boundary(body, start as int)
        &&& text::is_boundary(body, end as int)
    }
}

/// The matches in an article, from where each rule was found in its text, in the order of the
/// rules, up to the first match of a rule after which no other is looked at. A rule for which
/// nothing is given does not match.
pub open spec fn hits_from(
    rules: Seq<RuleRow>,
    article: ArticleRow,
    found: Seq<Option<(usize, usize)>>,
) -> Seq<HitView>
    decreases rules.len(),
{
    if rules.len() == 0 || found.len() == 0 {
        Seq::empty()
    } else {
        match found[0] {
            Some(place) => seq![hit_of(rules[0], article, place)] + if rules[0].stop_on_match {
                Seq::empty()
            } else {
                hits_from(rules.drop_first(), article, found.drop_first())
            },
            None => hits_from(rules.drop_first(), article, found.drop_first()),
        }
    }
}

/// Where each of some rules matches in the text of an article.
pub open spec fn matches_of(rules: Seq<RuleRow>, article: ArticleRow) -> Seq<
    Option<(usize, usize)>,
> {
    Seq::new(rules.len(), |i: int| rule_match(rules[i], article_text(article)))
}

/// The matches of some rules in an article.
pub open spec fn hits(rules: Seq<RuleRow>, article: ArticleRow) -> Seq<HitView> {
    hits_from(rules, article, matches_of(rules, article))
}

/// The matches of some rules in the first `n` of some articles.
pub open spec fn all_hits(rules: Seq<RuleRow>, articles: Seq<ArticleRow>, n: nat) -> Seq<HitView>
    decreases n,
{
    if n == 0 || n > articles.len() {
        Seq::empty()
    } else {
        all_hits(rules, articles, (n - 1) as nat) + hits(rules, articles[n - 1])
    }
}

/// The compiled form of a rule, where it has one.
pub open spec fn is_compiled(compiled: Option<Pattern>, rule: RuleRow) -> bool {
    match compiled {
        Some(p) => rule_source(rule) == Some(p@.0) && !p@.1 && pattern::compiled(
            p@.0,
            false,
        ) is Ok,
        None => rule_source(rule) is None || pattern::compiled(
            rule_source(rule)->0,
            false,
        ) is Err,
    }
}

fn compile_rule(rule: &RuleRow) -> (res: Option<Pattern>)
    ensures
        is_compiled(res, *rule),
{
    let source: String = match &rule.pattern {
        None => {
            return None;
        },
        Some(source) => match rule.case_sensitive {
            Some(true) => source.clone(),
            _ => {
                let mut marked: String = "(?i)".to_string();
                marked.append(source.as_str());
                marked
            },
        },
    };
    match pattern::compile(source.as_str(), false) {
        Ok(compiled) => Some(compiled),
        Err(_) => None,
    }
}

fn effect_for(action: &str) -> (res: RuleEffect)
    ensures
        res == effect_of(action@),
{
    if text::same(action, "hide") {
        RuleEffect::Hide
    } else if text::same(action, "star") {
        RuleEffect::Star
    } else if text::same(action, "mark_read") {
        RuleEffect::MarkRead
    } else {
        RuleEffect::Record
    }
}

fn text_of(article: &ArticleRow) -> (res: String)
    ensures
        res@ == article_text(*article),
{
    let mut res: String = article.title.clone();
    res.append(" ");
    let ghost before = res@;
    if let Some(summary) = &article.summary {
        res.append(summary.as_str());
    }
    proof {
        assert(res@ =~= before + text::or_empty(text::view_opt(article.summary)));
    }
    res.append(" ");
    let ghost before = res@;
    if let Some(content) = &article.content {
        res.append(content.as_str());
    }
    proof {
        assert(res@ =~= before + text::or_empty(text::view_opt(article.content)));
    }
    res
}

/// The matches in an article, from where each rule was found in its text.
pub fn hits_for_matches(
    rules: &Vec<RuleRow>,
    article: &ArticleRow,
    found: &Vec<Option<(usize, usize)>>,
) -> (res: Vec<RuleHit>)
    requires
        forall|i: int|
            0 <= i < found@.len() ==> lies_in(#[trigger] found@[i], article_text(*article)),
    ensures
        hit_views(res@) == hits_from(rules@, *article, found@),
{
    let body: String = text_of(article);
    let mut res: Vec<RuleHit> = Vec::new();
    let mut i: usize = 0;
    proof {
        assert(rules@.skip(0) =~= rules@);
        assert(found@.skip(0) =~= found@);
        assert(hit_views(res@) + hits_from(rules@, *article, found@) =~= hits_from(
            rules@,
            *article,
            found@,
        ));
    }
    while i < rules.len() && i < found.len()
        invariant
            i <= rules@.len(),
            i <= found@.len(),
            forall|i: int|
                0 <= i < found@.len() ==> lies_in(#[trigger] found@[i], article_text(*article)),
            body@ == article_text(*article),
            hit_views(res@) + hits_from(rules@.skip(i as int), *article, found@.skip(i as int))
                == hits_from(rules@, *article, found@),
        decreases rules@.len() - i,
    {
        let ghost rest = rules@.skip(i as int);
        let ghost places = found@.skip(i as int);
        let ghost so_far = res@;
        proof {
            assert(rest.drop_first() =~= rules@.skip(i + 1));
            assert(places.drop_first() =~= found@.skip(i + 1));
            assert(lies_in(found@[i as int], article_text(*article)));
        }
        if let Some((start, end)) = found[i] {
            let rule: &RuleRow = &rules[i];
            let hit: RuleHit = RuleHit {
                article_id: article.id,
                rule_id: rule.id,
                effect: effect_for(rule.action.as_str()),
                action: rule.action.clone(),
                matched_text: text::slice(body.as_str(), start, end),
            };
            res.push(hit);
            proof {
                assert(hit@ =~= hit_of(*rule, *article, (start, end)));
                assert(hit_views(res@) =~= hit_views(so_far) + seq![hit@]);
            }
            if rule.stop_on_match {
                proof {
                    assert(hits_from(rest, *article, places) =~= seq![hit@]);
                }
                return res;
            }
            proof {
                assert(hit_views(res@) + hits_from(
                    rest.drop_first(),
                    *article,
                    places.drop_first(),
                ) =~= hit_views(so_far) + hits_from(rest, *article, places));
            }
        }
        i += 1;
    }
    proof {
        assert(hit_views(res@) + hits_from(
            rules@.skip(i as int),
            *article,
            found@.skip(i as int),
        ) =~= hit_views(res@));
    }
    res
}

/// What is given for the rules behind a match of a rule that stops makes no difference.
proof fn lemma_stop_ends(
    rules: Seq<RuleRow>,
    article: ArticleRow,
    found: Seq<Option<(usize, usize)>>,
    n: int,
)
    requires
        0 < n <= found.len(),
        found.len() <= rules.len(),
        found[n - 1] is Some,
        rules[n - 1].stop_on_match,
    ensures
        hits_from(rules, article, found.take(n)) == hits_from(rules, article, found),
    decreases n,
{
    assert(found.take(n)[0] == found[0]);
    if n > 1 && !(found[0] is Some && rules[0].stop_on_match) {
        lemma_stop_ends(rules.drop_first(), article, found.drop_first(), n - 1);
        assert(found.take(n).drop_first() =~= found.drop_first().take(n - 1));
    }
}

/// Where each rule matches in a text, up to the first match of a rule that stops.
fn find_matches(
    rules: &Vec<RuleRow>,
    compiled: &Vec<Option<Pattern>>,
    article: &ArticleRow,
) -> (res: Vec<Option<(usize, usize)>>)
    requires
        compiled@.len() == rules@.len(),
        forall|i: int| 0 <= i < rules@.len() ==> is_compiled(#[trigger] compiled@[i], rules@[i]),
    ensures
        forall|i: int| 0 <= i < res@.len() ==> lies_in(#[trigger] res@[i], article_text(*article)),
        hits_from(rules@, *article, res@) == hits(rules@, *article),
{
    let body: String = text_of(article);
    let mut res: Vec<Option<(usize, usize)>> = Vec::new();
    while res.len() < rules.len()
        invariant
            res@.len() <= rules@.len(),
            compiled@.len() == rules@.len(),
            forall|i: int|
                0 <= i < rules@.len() ==> is_compiled(#[trigger] compiled@[i], rules@[i]),
            body@ == article_text(*article),
            forall|i: int|
                0 <= i < res@.len() ==> lies_in(#[trigger] res@[i], article_text(*article)),
            forall|i: int|
                0 <= i < res@.len() ==> #[trigger] res@[i] == rule_match(rules@[i], body@),
        decreases rules@.len() - res@.len(),
    {
        let i: usize = res.len();
        proof {
            assert(is_compiled(compiled@[i as int], rules@[i as int]));
        }
        let place: Option<(usize, usize)> = match &compiled[i] {
            Some(regex) => pattern::find(regex, body.as_str()),
            None => None,
        };
        res.push(place);
        if place.is_some() && rules[i].stop_on_match {
            proof {
                let all = matches_of(rules@, *article);
                assert(res@ =~= all.take(i + 1));
                lemma_stop_ends(rules@, *article, all, i + 1);
            }
            return res;
        }
    }
    proof {
        assert(res@ =~= matches_of(rules@, *article));
    }
    res
}

/// What rules do to articles: the matches of all rules in all articles, in the order in which
/// they take effect.
pub fn evaluate_rules(rules: &Vec<RuleRow>, articles: &Vec<ArticleRow>) -> (res: Vec<RuleHit>)
    ensures
        hit_views(res@) == all_hits(rules@, articles@, articles@.len()),
{
    let mut compiled: Vec<Option<Pattern>> = Vec::new();
    while compiled.len() < rules.len()
        invariant
            compiled@.len() <= rules@.len(),
            forall|i: int|
                0 <= i < compiled@.len() ==> is_compiled(#[trigger] compiled@[i], rules@[i]),
        decreases rules@.len() - compiled@.len(),
    {
        let next: Option<Pattern> = compile_rule(&rules[compiled.len()]);
        compiled.push(next);
    }
    let mut res: Vec<RuleHit> = Vec::new();
    let mut i: usize = 0;
    proof {
        assert(hit_views(res@) =~= all_hits(rules@, articles@, 0));
    }
    while i < articles.len()
        invariant
            i <= articles@.len(),
            compiled@.len() == rules@.len(),
            forall|i: int|
                0 <= i < rules@.len() ==> is_compiled(#[trigger] compiled@[i], rules@[i]),
            hit_views(res@) == all_hits(rules@, articles@, i as nat),
        decreases articles@.len() - i,
    {
        let ghost before = res@;
        let places: Vec<Option<(usize, usize)>> = find_matches(rules, &compiled, &articles[i]);
        let mut found: Vec<RuleHit> = hits_for_matches(rules, &articles[i], &places);
        let ghost added = found@;
        res.append(&mut found);
        proof {
            assert(hit_views(res@) =~= hit_views(before) + hit_views(added));
        }
        i += 1;
    }
    res
}

/// After the match of a rule that stops, no other rule touches the article: every match but
/// the last is one of a rule that does not stop.
pub proof fn nothing_follows_a_stop(
    rules: Seq<RuleRow>,
    article: ArticleRow,
    found: Seq<Option<(usize, usize)>>,
    k: int,
)
    requires
        0 <= k < hits_from(rules, article, found).len() - 1,
    ensures
        exists|i: int|
            0 <= i < rules.len() && (#[trigger] rules[i]).id == hits_from(
                rules,
                article,
                found,
            )[k].rule_id && !rules[i].stop_on_match,
    decreases rules.len(),
{
    let rest = rules.drop_first();
    let tail = hits_from(rest, article, found.drop_first());
    match found[0] {
        Some(place) => {
            if k == 0 {
                assert(rules[0].id == hits_from(rules, article, found)[0].rule_id);
            } else {
                assert(hits_from(rules, article, found)[k] == tail[k - 1]);
                nothing_follows_a_stop(rest, article, found.drop_first(), k - 1);
                let i = choose|i: int|
                    0 <= i < rest.len() && (#[trigger] rest[i]).id == tail[k - 1].rule_id
                        && !rest[i].stop_on_match;
                assert(rules[i + 1] == rest[i]);
            }
        },
        None => {
            nothing_follows_a_stop(rest, article, found.drop_first(), k);
            let i = choose|i: int|
                0 <= i < rest.len() && (#[trigger] rest[i]).id == tail[k].rule_id
                    && !rest[i].stop_on_match;
            assert(rules[i + 1] == rest[i]);
        },
    }
}

/// A rule touches an article at most once, so that there are at most as many matches as
/// rules.
pub proof fn each_rule_matches_once(
    rules: Seq<RuleRow>,
    article: ArticleRow,
    found: Seq<Option<(usize, usize)>>,
)
    ensures
        hits_from(rules, article, found).len() <= rules.len(),
    decreases rules.len(),
{
    if rules.len() > 0 && found.len() > 0 {
        each_rule_matches_once(rules.drop_first(), article, found.drop_first());
    }
}

/// The number of words of an item: of its content, or of its summary where it has no content.
pub fn item_word_count(content: &Option<String>, summary: &Option<String>) -> (res: Option<i32>)
    ensures
        res == match (content, summary) {
            (Some(content), _) => Some((text::words(content@) as usize) as i32),
            (None, Some(summary)) => Some((text::words(summary@) as usize) as i32),
            (None, None) => None,
        },
{
    match content {
        Some(content) => Some(
            #[verifier::truncate]
            (text::word_count(content.as_str()) as i32),
        ),
        None => match summary {
            Some(summary) => Some(
                #[verifier::truncate]
                (text::word_count(summary.as_str()) as i32),
            ),
            None => None,
        },
    }
}

/// The test for an item that was stored.
pub open spec fn was_stored() -> spec_fn(Option<Uuid>) -> bool {
    |stored: Option<Uuid>| stored is Some
}

/// The ids of the items that were stored, in their order. An item that was there before has
/// none.
pub fn new_article_ids(stored: &Vec<Option<Uuid>>) -> (res: Vec<Uuid>)
    ensures
        res@ == stored@.filter(was_stored()).map_values(|id: Option<Uuid>| id->0),
{
    let mut res: Vec<Uuid> = Vec::new();
    let mut i: usize = 0;
    proof {
        lists::lemma_filter_all(stored@, was_stored());
        assert(stored@.take(0).filter(was_stored()).map_values(|id: Option<Uuid>| id->0)
            =~= res@);
    }
    while i < stored.len()
        invariant
            i <= stored@.len(),
            res@ == stored@.take(i as int).filter(was_stored()).map_values(
                |id: Option<Uuid>| id->0,
            ),
        decreases stored@.len() - i,
    {
        let ghost before = res@;
        proof {
            lists::lemma_filter_step(stored@, i as int, was_stored());
        }
        if let Some(id) = stored[i] {
            res.push(id);
        }
        proof {
            assert(stored@.take(i + 1).filter(was_stored()).map_values(|id: Option<Uuid>| id->0)
                =~= res@);
        }
        i += 1;
    }
    res
}

/// A record of usage that has not been reported yet.
#[derive(Debug)]
pub struct UsageRow {
    pub id: Uuid,
    pub usage_type: String,
    pub quantity: i64,
}

/// The ids of some records of usage, in their order.
pub fn record_ids(records: &Vec<UsageRow>) -> (res: Vec<Uuid>)
    ensures
        res@ == records@.map_values(|r: UsageRow| r.id),
{
    let mut res: Vec<Uuid> = Vec::new();
    while res.len() < records.len()
        invariant
            res@.len() <= records@.len(),
            forall|i: int| 0 <= i < res@.len() ==> #[trigger] res@[i] == records@[i].id,
        decreases records@.len() - res@.len(),
    {
        res.push(records[res.len()].id);
    }
    proof {
        assert(res@ =~= records@.map_values(|r: UsageRow| r.id));
    }
    res
}

/// A rule for which case counts is found where its own pattern is, and any other rule where the
/// pattern is that is marked to ignore case. A rule without a pattern, or with one that is no
/// regular expression, is found nowhere.
pub proof fn rule_is_found_where_its_pattern_is(rule: RuleRow, body: Seq<char>, marked: Seq<char>)
    requires
        text::begins_with(marked, "(?i)"@),
        rule.pattern matches Some(source) ==> marked.skip("(?i)"@.len() as int) == source@,
    ensures
        rule.pattern is None ==> rule_match(rule, body) is None,
        rule.pattern matches Some(source) ==> {
            let looked_for = if rule.case_sensitive == Some(true) {
                source@
            } else {
                marked
            };
            &&& pattern::compiled(looked_for, false) is Err ==> rule_match(rule, body) is None
            &&& pattern::compiled(looked_for, false) is Ok ==> rule_match(rule, body)
                == pattern::first_match(looked_for, false, body)
        },
{
    let n = "(?i)"@.len() as int;
    if let Some(source) = rule.pattern {
        assert(marked =~= marked.take(n) + marked.skip(n));
    }
}

/// A rule ignores case unless its stored setting says that case counts: a rule whose setting
/// says no is found in every text where it is found with the setting missing.
pub proof fn missing_case_setting_ignores_case(a: RuleRow, b: RuleRow, body: Seq<char>)
    requires
        text::view_opt(a.pattern) == text::view_opt(b.pattern),
        a.case_sensitive != Some(true),
        b.case_sensitive != Some(true),
    ensures
        rule_match(a, body) == rule_match(b, body),
{
}

/// Whether two rules are the same but for how their settings say whether case counts.
pub open spec fn are_alike(a: RuleRow, b: RuleRow) -> bool {
    &&& a.id == b.id
    &&& text::view_opt(a.pattern) == text::view_opt(b.pattern)
    &&& (a.case_sensitive == Some(true)) == (b.case_sensitive == Some(true))
    &&& a.action@ == b.action@
    &&& a.stop_on_match == b.stop_on_match
}

/// Rules that are alike do the same to all articles.
pub proof fn alike_rules_do_the_same(
    a: Seq<RuleRow>,
    b: Seq<RuleRow>,
    articles: Seq<ArticleRow>,
    n: nat,
)
    requires
        a.len() == b.len(),
        forall|i: int| 0 <= i < a.len() ==> are_alike(#[trigger] a[i], b[i]),
    ensures
        all_hits(a, articles, n) == all_hits(b, articles, n),
    decreases n,
{
    if 0 < n <= articles.len() {
        alike_rules_do_the_same(a, b, articles, (n - 1) as nat);
        let article = articles[n - 1];
        assert forall|i: int| 0 <= i < a.len() implies #[trigger] matches_of(a, article)[i]
            == matches_of(b, article)[i] by {
            assert(are_alike(a[i], b[i]));
            assert(rule_match(a[i], article_text(article)) == rule_match(
                b[i],
                article_text(article),
            ));
        }
        assert(matches_of(a, article) =~= matches_of(b, article));
        lemma_alike_hits(a, b, article, matches_of(a, article));
    }
}

proof fn lemma_alike_hits(
    a: Seq<RuleRow>,
    b: Seq<RuleRow>,
    article: ArticleRow,
    found: Seq<Option<(usize, usize)>>,
)
    requires
        a.len() == b.len(),
        forall|i: int| 0 <= i < a.len() ==> are_alike(#[trigger] a[i], b[i]),
    ensures
        hits_from(a, article, found) == hits_from(b, article, found),
    decreases a.len(),
{
    if a.len() > 0 && found.len() > 0 {
        assert(are_alike(a[0], b[0]));
        assert forall|i: int| 0 <= i < a.drop_first().len() implies are_alike(
            #[trigger] a.drop_first()[i],
            b.drop_first()[i],
        ) by {
            assert(are_alike(a[i + 1], b[i + 1]));
        }
        lemma_alike_hits(a.drop_first(), b.drop_first(), article, found.drop_first());
    }
}

/// Rules look at the whole of an article: its text begins with the title, ends with the content
/// and holds the summary between them, with one space on either side, and nothing else.
pub proof fn rules_look_at_the_whole_article(article: ArticleRow)
    ensures
        ({
            let body = article_text(article);
            let title = article.title@;
            let summary = text::or_empty(text::view_opt(article.summary));
            let content = text::or_empty(text::view_opt(article.content));
            &&& text::begins_with(body, title)
            &&& body[title.len() as int] == ' '
            &&& text::stands_at(body, summary, title.len() as int + 1)
            &&& body[title.len() as int + 1 + summary.len()] == ' '
            &&& text::ends_with(body, content)
            &&& body.len() == title.len() + 1 + summary.len() + 1 + content.len()
        }),
{
    reveal_strlit(" ");
    let body = article_text(article);
    let title = article.title@;
    let summary = text::or_empty(text::view_opt(article.summary));
    let content = text::or_empty(text::view_opt(article.content));
    assert(body.take(title.len() as int) =~= title);
    assert(body.subrange(
        title.len() as int + 1,
        title.len() as int + 1 + summary.len(),
    ) =~= summary);
    assert(body.skip(body.len() - content.len()) =~= content);
}

/// A rule hides, stars or marks as read if and only if that is the name of its action, and is only
/// recorded otherwise.
pub proof fn effect_is_that_of_the_action(action: Seq<char>)
    ensures
        effect_of(action) == RuleEffect::Hide <==> action == "hide"@,
        effect_of(action) == RuleEffect::Star <==> action == "star"@,
        effect_of(action) == RuleEffect::MarkRead <==> action == "mark_read"@,
        effect_of(action) == RuleEffect::Record <==> action != "hide"@ && action != "star"@
            && action != "mark_read"@,
{
    reveal_strlit("hide");
    reveal_strlit("star");
    reveal_strlit("mark_read");
    assert("hide"@[0] != "star"@[0]);
    assert("hide"@.len() != "mark_read"@.len());
}

/// Whether a rule takes effect: it was found, and no rule before it was found that stops.
pub open spec fn takes_effect(
    rules: Seq<RuleRow>,
    found: Seq<Option<(usize, usize)>>,
    i: int,
) -> bool {
    &&& 0 <= i < rules.len() && i < found.len()
    &&& found[i] is Some
    &&& forall|j: int| 0 <= j < i ==> !(#[trigger] rules[j].stop_on_match && found[j] is Some)
}

/// Whether `hit` says that a rule was found in an article at a place of its text: it names both,
/// does what the rule does, and quotes the bytes of the text that were found.
pub open spec fn reports(
    hit: HitView,
    rule: RuleRow,
    article: ArticleRow,
    found: (usize, usize),
) -> bool {
    &&& hit.rule_id == rule.id
    &&& hit.article_id == article.id
    &&& hit.action == rule.action@
    &&& hit.effect == effect_of(rule.action@)
    &&& lies_in(Some(found), article_text(article)) ==> vstd::utf8::encode_utf8(hit.matched_text)
        == vstd::utf8::encode_utf8(article_text(article)).subrange(
        found.0 as int,
        found.1 as int,
    )
}

/// The places of the rules that the matches are of are in order, and are those of the rules
/// that take effect.
pub open spec fn lists_effects(
    order: Seq<int>,
    rules: Seq<RuleRow>,
    article: ArticleRow,
    found: Seq<Option<(usize, usize)>>,
    all: Seq<HitView>,
) -> bool {
    &&& order.len() == all.len()
    &&& forall|j: int, k: int| 0 <= j < k < order.len() ==> #[trigger] order[j] < #[trigger] order[k]
    &&& forall|k: int|
        0 <= k < order.len() ==> takes_effect(rules, found, #[trigger] order[k]) && reports(
            all[k],
            rules[order[k]],
            article,
            found[order[k]]->0,
        )
    &&& forall|i: int| #[trigger] takes_effect(rules, found, i) ==> order.contains(i)
}

/// What rules do to an article is what each rule does that takes effect, in the order of the
/// rules: every rule that was found does, unless one before it was found that stops, and no
/// other does.
pub proof fn found_rules_take_effect_unless_stopped(
    rules: Seq<RuleRow>,
    article: ArticleRow,
    found: Seq<Option<(usize, usize)>>,
) -> (order: Seq<int>)
    ensures
        lists_effects(order, rules, article, found, hits_from(rules, article, found)),
    decreases rules.len(),
{
    let all = hits_from(rules, article, found);
    if rules.len() == 0 || found.len() == 0 {
        Seq::empty()
    } else {
        let rest = rules.drop_first();
        let places = found.drop_first();
        let tail = hits_from(rest, article, places);
        let later = found_rules_take_effect_unless_stopped(rest, article, places);
        let shifted = later.map_values(|i: int| i + 1);
        if let Some(place) = found[0] {
            if lies_in(Some(place), article_text(article)) {
                text::lemma_cut_bytes(article_text(article), place.0 as int, place.1 as int);
            }
        }
        let stops = found[0] is Some && rules[0].stop_on_match;
        let order = if stops {
            seq![0int]
        } else if found[0] is Some {
            seq![0int] + shifted
        } else {
            shifted
        };
        assert forall|i: int| i > 0 && !stops implies #[trigger] takes_effect(rules, found, i)
            == takes_effect(rest, places, i - 1) by {
            if takes_effect(rules, found, i) {
                assert forall|j: int| 0 <= j < i - 1 implies !(#[trigger] rest[j].stop_on_match
                    && places[j] is Some) by {
                    assert(rules[j + 1].stop_on_match == rest[j].stop_on_match);
                }
            }
            if takes_effect(rest, places, i - 1) {
                assert forall|j: int| 0 <= j < i implies !(#[trigger] rules[j].stop_on_match
                    && found[j] is Some) by {
                    if j > 0 {
                        assert(rest[j - 1].stop_on_match == rules[j].stop_on_match);
                    }
                }
            }
        }
        let first = if found[0] is Some {
            1int
        } else {
            0
        };
        assert forall|k: int| 0 <= k < order.len() implies takes_effect(
            rules,
            found,
            #[trigger] order[k],
        ) && reports(all[k], rules[order[k]], article, found[order[k]]->0) by {
            if k >= first {
                assert(order[k] == later[k - first] + 1);
                assert(takes_effect(rest, places, later[k - first]));
                assert(takes_effect(rules, found, order[k]));
                assert(all[k] == tail[k - first]);
            }
        }
        assert forall|i: int| #[trigger] takes_effect(rules, found, i) implies order.contains(
            i,
        ) by {
            if i == 0 {
                assert(order[0] == 0);
            } else if stops {
                assert(rules[0].stop_on_match && found[0] is Some);
            } else {
                assert(takes_effect(rest, places, i - 1));
                let k = choose|k: int| 0 <= k < later.len() && later[k] == i - 1;
                assert(order[k + first] == i);
            }
        }
        assert forall|j: int, k: int| 0 <= j < k < order.len() implies #[trigger] order[j]
            < #[trigger] order[k] by {
            assert(takes_effect(rules, found, order[k]));
            if j >= first {
                assert(order[j] == later[j - first] + 1);
                assert(order[k] == later[k - first] + 1);
            } else {
                assert(order[k] == later[k - first] + 1);
                assert(takes_effect(rest, places, later[k - first]));
            }
        }
        order
    }
}

/// Each article is judged by itself: what rules do to some articles is what they do to the first
/// of them, followed by what they do to the others, and to a single article they do what follows
/// from where each rule is found in its text.
pub proof fn articles_are_judged_one_by_one(
    rules: Seq<RuleRow>,
    a: Seq<ArticleRow>,
    b: Seq<ArticleRow>,
    article: ArticleRow,
)
    ensures
        all_hits(rules, a + b, (a + b).len()) == all_hits(rules, a, a.len()) + all_hits(
            rules,
            b,
            b.len(),
        ),
        all_hits(rules, seq![article], 1) == hits_from(
            rules,
            article,
            Seq::new(rules.len(), |i: int| rule_match(rules[i], article_text(article))),
        ),
    decreases b.len(),
{
    assert(all_hits(rules, seq![article], 0) =~= Seq::<HitView>::empty());
    assert(all_hits(rules, seq![article], 1) =~= hits(rules, article));
    if b.len() == 0 {
        assert(a + b =~= a);
        assert(all_hits(rules, a, a.len()) + all_hits(rules, b, b.len()) =~= all_hits(
            rules,
            a,
            a.len(),
        ));
    } else {
        articles_are_judged_one_by_one(rules, a, b.drop_last(), article);
        assert((a + b).drop_last() =~= a + b.drop_last());
        lemma_hits_of_first(rules, a + b, (a + b).drop_last(), ((a + b).len() - 1) as nat);
        lemma_hits_of_first(rules, b, b.drop_last(), (b.len() - 1) as nat);
        assert((a + b)[(a + b).len() - 1] == b[b.len() - 1]);
        assert(all_hits(rules, a + b, (a + b).len()) =~= all_hits(rules, a, a.len()) + all_hits(
            rules,
            b,
            b.len(),
        ));
    }
}

proof fn lemma_hits_of_first(
    rules: Seq<RuleRow>,
    a: Seq<ArticleRow>,
    b: Seq<ArticleRow>,
    n: nat,
)
    requires
        n <= a.len(),
        n <= b.len(),
        forall|i: int| 0 <= i < n ==> a[i] == b[i],
    ensures
        all_hits(rules, a, n) == all_hits(rules, b, n),
    decreases n,
{
    if n > 0 {
        lemma_hits_of_first(rules, a, b, (n - 1) as nat);
        assert(a[n - 1] == b[n - 1]);
    }
}

/// What comes out of evaluating rules on an article is what each rule does that takes effect, in
/// the order of the rules.
pub proof fn evaluation_reports_what_takes_effect(
    rules: Vec<RuleRow>,
    article: ArticleRow,
    articles: Vec<ArticleRow>,
    res: Vec<RuleHit>,
) -> (order: Seq<int>)
    requires
        articles@ == seq![article],
        call_ensures(evaluate_rules, (&rules, &articles), res),
    ensures
        lists_effects(
            order,
            rules@,
            article,
            Seq::new(rules@.len(), |i: int| rule_match(rules@[i], article_text(article))),
            Seq::new(
                res@.len(),
                |i: int|
                    HitView {
                        article_id: res@[i].article_id,
                        rule_id: res@[i].rule_id,
                        effect: res@[i].effect,
                        action: res@[i].action@,
                        matched_text: res@[i].matched_text@,
                    },
            ),
        ),
{
    articles_are_judged_one_by_one(rules@, Seq::empty(), seq![article], article);
    let found = Seq::new(rules@.len(), |i: int| rule_match(rules@[i], article_text(article)));
    let order = found_rules_take_effect_unless_stopped(rules@, article, found);
    assert(hit_views(res@) =~= Seq::new(
        res@.len(),
        |i: int|
            HitView {
                article_id: res@[i].article_id,
                rule_id: res@[i].rule_id,
                effect: res@[i].effect,
                action: res@[i].action@,
                matched_text: res@[i].matched_text@,
            },
    ));
    order
}

/// What comes out of evaluating rules on some articles and then on others is what comes out of
/// evaluating them on all.
pub proof fn evaluations_add_up(
    rules: Vec<RuleRow>,
    first: Vec<ArticleRow>,
    a: Vec<RuleHit>,
    others: Vec<ArticleRow>,
    b: Vec<RuleHit>,
    all: Vec<ArticleRow>,
    res: Vec<RuleHit>,
)
    requires
        all@ == first@ + others@,
        call_ensures(evaluate_rules, (&rules, &first), a),
        call_ensures(evaluate_rules, (&rules, &others), b),
        call_ensures(evaluate_rules, (&rules, &all), res),
    ensures
        res@.len() == a@.len() + b@.len(),
        forall|i: int|
            0 <= i < res@.len() ==> {
                let hit = #[trigger] res@[i];
                let same = if i < a@.len() {
                    a@[i]
                } else {
                    b@[i - a@.len()]
                };
                &&& hit.article_id == same.article_id
                &&& hit.rule_id == same.rule_id
                &&& hit.effect == same.effect
                &&& hit.action@ == same.action@
                &&& hit.matched_text@ == same.matched_text@
            },
{
    if all@.len() > 0 {
        articles_are_judged_one_by_one(rules@, first@, others@, all@[0]);
    } else {
        assert(first@ =~= all@ && others@ =~= all@);
    }
    assert(hit_views(res@) =~= hit_views(a@) + hit_views(b@));
    assert(hit_views(res@).len() == res@.len() && hit_views(a@).len() == a@.len() && hit_views(
        b@,
    ).len() == b@.len());
    assert forall|i: int| 0 <= i < res@.len() implies (#[trigger] res@[i])@ == (if i < a@.len() {
        a@[i]@
    } else {
        b@[i - a@.len()]@
    }) by {
        assert(hit_views(res@)[i] == res@[i]@);
        if i < a@.len() {
            assert(hit_views(a@)[i] == a@[i]@);
        } else {
            assert(hit_views(b@)[i - a@.len()] == b@[i - a@.len()]@);
        }
    }
    assert forall|i: int| 0 <= i < res@.len() implies {
        let hit = #[trigger] res@[i];
        let same = if i < a@.len() {
            a@[i]
        } else {
            b@[i - a@.len()]
        };
        &&& hit.article_id == same.article_id
        &&& hit.rule_id == same.rule_id
        &&& hit.effect == same.effect
        &&& hit.action@ == same.action@
        &&& hit.matched_text@ == same.matched_text@
    } by {
        assert(res@[i]@ == (if i < a@.len() {
            a@[i]@
        } else {
            b@[i - a@.len()]@
        }));
    }
}

/// The words of an item are those of its content, or of its summary where it has no content.
pub proof fn words_are_those_of_the_content(
    content: Option<String>,
    summary: Option<String>,
    res: Option<i32>,
)
    requires
        call_ensures(item_word_count, (&content, &summary), res),
        content matches Some(c) ==> text::words(c@) <= i32::MAX,
        summary matches Some(s) ==> text::words(s@) <= i32::MAX,
    ensures
        res is None <==> content is None && summary is None,
        content matches Some(c) ==> res->0 == text::words(c@),
        content is None && summary is Some ==> res->0 == text::words(summary->0@),
{
}

/// An item that was stored adds its id behind those before it, and one that was there adds
/// nothing.
pub proof fn new_ids_are_those_stored(
    stored: Vec<Option<Uuid>>,
    before: Vec<Uuid>,
    last: Option<Uuid>,
    longer: Vec<Option<Uuid>>,
    res: Vec<Uuid>,
    none: Vec<Option<Uuid>>,
    empty: Vec<Uuid>,
)
    requires
        longer@ == stored@.push(last),
        none@.len() == 0,
        call_ensures(new_article_ids, (&stored,), before),
        call_ensures(new_article_ids, (&longer,), res),
        call_ensures(new_article_ids, (&none,), empty),
    ensures
        empty@.len() == 0,
        last matches Some(id) ==> res@ == before@.push(id),
        last is None ==> res@ == before@,
{
    reveal(Seq::filter);
    assert(longer@.drop_last() =~= stored@);
    assert(longer@.last() == last);
    let kept = stored@.filter(was_stored());
    if last is Some {
        assert(longer@.filter(was_stored()) == kept.push(last));
    } else {
        assert(longer@.filter(was_stored()) == kept);
    }
    assert(none@ =~= Seq::<Option<Uuid>>::empty());
}

/// The ids of records are listed in the order of the records.
pub proof fn records_are_listed_by_id(records: Vec<UsageRow>, res: Vec<Uuid>, i: int)
    requires
        call_ensures(record_ids, (&records,), res),
        0 <= i < records@.len(),
    ensures
        res@.len() == records@.len(),
        res@[i] == records@[i].id,
{
}

/// A rule is compiled from its own pattern, marked to ignore case unless its setting says that
/// case counts, and has no compiled form where it has no pattern or that is none.
proof fn compiled_form_is_that_of_the_rule(
    rule: RuleRow,
    marked: Seq<char>,
    res: Option<Pattern>,
)
    requires
        text::begins_with(marked, "(?i)"@),
        rule.pattern matches Some(source) ==> marked.skip("(?i)"@.len() as int) == source@,
        call_ensures(compile_rule, (&rule,), res),
    ensures
        rule.pattern is None ==> res is None,
        rule.pattern matches Some(source) ==> {
            let looked_for = if rule.case_sensitive == Some(true) {
                source@
            } else {
                marked
            };
            &&& res is Some <==> pattern::compiled(looked_for, false) is Ok
            &&& res matches Some(p) ==> p@ == (looked_for, false)
        },
{
    let n = "(?i)"@.len() as int;
    if let Some(source) = rule.pattern {
        assert(marked =~= marked.take(n) + marked.skip(n));
    }
}

/// What comes of rules that were found at some places of an article is what each rule does that
/// takes effect, in the order of the rules.
pub proof fn found_places_become_effects(
    rules: Vec<RuleRow>,
    article: ArticleRow,
    found: Vec<Option<(usize, usize)>>,
    res: Vec<RuleHit>,
) -> (order: Seq<int>)
    requires
        call_ensures(hits_for_matches, (&rules, &article, &found), res),
    ensures
        lists_effects(
            order,
            rules@,
            article,
            found@,
            Seq::new(
                res@.len(),
                |i: int|
                    HitView {
                        article_id: res@[i].article_id,
                        rule_id: res@[i].rule_id,
                        effect: res@[i].effect,
                        action: res@[i].action@,
                        matched_text: res@[i].matched_text@,
                    },
            ),
        ),
{
    let order = found_rules_take_effect_unless_stopped(rules@, article, found@);
    assert(hit_views(res@) =~= Seq::new(
        res@.len(),
        |i: int|
            HitView {
                article_id: res@[i].article_id,
                rule_id: res@[i].rule_id,
                effect: res@[i].effect,
                action: res@[i].action@,
                matched_text: res@[i].matched_text@,
            },
    ));
    order
}

} // verus!
