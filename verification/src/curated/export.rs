//! The portable export of one article.

use vstd::prelude::*;
use vstd::string::*;

use crate::curated::model::{Article, Decision, DecisionOutcome, Evaluation, Evidence, RuleInput};
use crate::hash;
use crate::ids;
use crate::opml::document::{FlatFeed, OpmlDocument};
use crate::text;
use crate::time;
use crate::time::Timestamp;

verus! {

/// The names that every export carries.
#[derive(Debug)]
pub struct ExportContract {
    pub format: String,
    pub origin: String,
    pub purpose: String,
}

#[derive(Debug)]
pub struct CuratedExportItem {
    pub item_id: String,
    pub title: String,
    pub content_excerpt: String,
    pub content_hash: String,
    pub source_url_hash: String,
    pub published_at: Option<String>,
    pub tags: Vec<String>,
}

#[derive(Debug)]
pub struct CuratedSourceRef {
    pub source_id: String,
    pub source_type: String,
    pub origin_product: String,
    pub content_hash: String,
    pub provenance_id: String,
    pub opml_title: Option<String>,
    pub opml_feed_count: usize,
    pub first_feed_title: Option<String>,
}

#[derive(Debug)]
pub struct CuratedExportCuration {
    pub decision: String,
    pub reason: String,
    pub curated_by: String,
    pub curated_at: String,
}

#[derive(Debug)]
pub struct CuratedRuleEvidence {
    pub rule_id: String,
    pub decision: String,
    pub explanation: String,
    pub evidence_hash: String,
    pub confidence_bits: u32,
}

#[derive(Debug)]
pub struct CuratedExportConstraints {
    pub contains_raw_private_content: bool,
    pub contains_secrets: bool,
    pub contains_byok_material: bool,
    pub allow_downstream_execution: bool,
    pub data_residency: String,
    pub retention_policy_ref: String,
}

#[derive(Debug)]
pub struct CuratedArtifactRef {
    pub artifact_id: String,
    pub artifact_type: String,
    pub hash: String,
    pub manifest_ref: String,
}

#[derive(Debug)]
pub struct CuratedProvenanceRef {
    pub provenance_id: String,
    pub operation: String,
    pub timestamp: String,
}

/// One article, picked by a rule, with the reasons and without what is private.
#[derive(Debug)]
pub struct CuratedItemExport {
    pub format: String,
    pub export_id: String,
    pub origin_product: String,
    pub workspace_id: String,
    pub created_by: String,
    pub created_at: String,
    pub purpose: String,
    pub privacy_classification: String,
    pub item: CuratedExportItem,
    pub source_ref: CuratedSourceRef,
    pub curation: CuratedExportCuration,
    pub rule_evidence: Vec<CuratedRuleEvidence>,
    pub constraints: CuratedExportConstraints,
    pub artifact_ref: CuratedArtifactRef,
    pub provenance_ref: CuratedProvenanceRef,
}

/// The tagged digest of a text.
pub open spec fn tag(s: Seq<char>) -> Seq<char> {
    hash::digest_tag(vstd::utf8::encode_utf8(s))
}

/// Title, summary and content of an article, one below the other.
pub open spec fn content_material(article: Article) -> Seq<char> {
    article.title@ + "\n"@ + text::or_empty(text::view_opt(article.summary)) + "\n"@
        + text::or_empty(text::view_opt(article.content))
}

/// Where an article comes from: its address, or its guid where it has none.
pub open spec fn source_material(article: Article) -> Seq<char> {
    match article.url {
        Some(url) => url@,
        None => article.guid@,
    }
}

/// A piece of evidence in one line.
pub open spec fn evidence_line(e: Evidence) -> Seq<char> {
    e.field@ + ":"@ + e.excerpt@ + ":"@ + text::or_empty(text::view_opt(e.pattern))
}

/// The pieces of evidence of a decision, each in one line.
pub open spec fn evidence_lines(evidence: Seq<Evidence>) -> Seq<Seq<char>> {
    evidence.map_values(|e: Evidence| evidence_line(e))
}

/// What the evidence for a rule rests on: the first decision, or the rule itself where
/// there is none.
pub open spec fn evidence_material(input: RuleInput, decisions: Seq<Decision>) -> Seq<char> {
    if decisions.len() > 0 {
        input.name@ + ":"@ + decisions[0].explanation@ + ":"@ + text::joined(
            evidence_lines(decisions[0].evidence@),
            "|"@,
        )
    } else {
        input.name@ + ":"@ + input.pattern@ + ":not_evaluated"@
    }
}

/// A stable reference to an article that shows nothing of its guid.
pub open spec fn item_reference(guid: Seq<char>) -> Seq<char> {
    hash::digest_hex(vstd::utf8::encode_utf8(guid)).take(24)
}

/// Whether a text is made of `n` lowercase hexadecimal digits.
pub open spec fn is_hex_text(s: Seq<char>, n: nat) -> bool {
    &&& s.len() == n
    &&& forall|i: int|
        0 <= i < s.len() ==> '0' <= (#[trigger] s[i]) <= '9' || 'a' <= s[i] <= 'f'
}

/// A stable id for a rule, from its name and its pattern.
pub open spec fn rule_id_of(input: RuleInput) -> Seq<char> {
    "rule:"@ + hash::digest_hex(vstd::utf8::encode_utf8(input.name@ + ":"@ + input.pattern@)).take(16)
}

/// What an export shows of the text of an article: the first 2000 characters of its summary,
/// or of its content, or of its title, whichever is there first.
pub open spec fn excerpt_of(article: Article) -> Seq<char> {
    text::prefix(
        match article.summary {
            Some(summary) => summary@,
            None => match article.content {
                Some(content) => content@,
                None => article.title@,
            },
        },
        2000,
    )
}

/// The word for what came of a rule.
pub open spec fn outcome_word(decisions: Seq<Decision>) -> Seq<char> {
    if decisions.len() == 0 {
        "not_evaluated"@
    } else {
        match decisions[0].outcome {
            DecisionOutcome::Matched => "match"@,
            DecisionOutcome::NotMatched => "no_match"@,
            DecisionOutcome::Skipped => "not_evaluated"@,
        }
    }
}

/// The first 64 of some tags, each cut to 64 characters.
pub open spec fn exported_tags(categories: Seq<String>) -> Seq<Seq<char>> {
    Seq::new(
        if categories.len() <= 64 {
            categories.len()
        } else {
            64
        },
        |i: int| text::prefix(categories[i]@, 64),
    )
}

/// An optional title, cut to 300 characters.
pub open spec fn exported_title(title: Option<Seq<char>>) -> Option<Seq<char>> {
    match title {
        Some(title) => Some(text::prefix(title, 300)),
        None => None,
    }
}

/// A point in time as it is exported.
pub open spec fn time_text(at: Timestamp) -> Seq<char> {
    time::rfc3339_text(at)
}

/// How an export refers to what it is about.
#[derive(Debug)]
pub struct References {
    pub item_id: String,
    pub item_reference: String,
    pub rule_id: String,
    pub content_hash: String,
    pub source_url_hash: String,
    pub evidence_hash: String,
    pub artifact_hash: String,
    pub created_at: String,
    pub published_at: Option<String>,
}

/// What is known of how an export refers to what it is about.
#[verifier::ext_equal]
pub struct ReferencesView {
    pub item_id: Seq<char>,
    pub item_reference: Seq<char>,
    pub rule_id: Seq<char>,
    pub content_hash: Seq<char>,
    pub source_url_hash: Seq<char>,
    pub evidence_hash: Seq<char>,
    pub artifact_hash: Seq<char>,
    pub created_at: Seq<char>,
    pub published_at: Option<Seq<char>>,
}

impl View for References {
    type V = ReferencesView;

    open spec fn view(&self) -> ReferencesView {
        ReferencesView {
            item_id: self.item_id@,
            item_reference: self.item_reference@,
            rule_id: self.rule_id@,
            content_hash: self.content_hash@,
            source_url_hash: self.source_url_hash@,
            evidence_hash: self.evidence_hash@,
            artifact_hash: self.artifact_hash@,
            created_at: self.created_at@,
            published_at: text::view_opt(self.published_at),
        }
    }
}

/// What the digest of an export covers.
pub open spec fn artifact_material(
    export_id: Seq<char>,
    content_hash: Seq<char>,
    source_url_hash: Seq<char>,
    evidence_hash: Seq<char>,
) -> Seq<char> {
    export_id + ":"@ + content_hash + ":"@ + source_url_hash + ":"@ + evidence_hash
}

/// How the export of an article refers to it: by digests, so that neither the guid nor the
/// address of the article can be read from it.
pub open spec fn references_of(article: Article, input: RuleInput, decisions: Seq<Decision>) -> ReferencesView {
    let content_hash = tag(content_material(article));
    let source_url_hash = tag(source_material(article));
    let evidence_hash = tag(evidence_material(input, decisions));
    ReferencesView {
        item_id: ids::hyphenated(article.id),
        item_reference: item_reference(article.guid@),
        rule_id: rule_id_of(input),
        content_hash,
        source_url_hash,
        evidence_hash,
        artifact_hash: tag(
            artifact_material(
                "export:"@ + item_reference(article.guid@),
                content_hash,
                source_url_hash,
                evidence_hash,
            ),
        ),
        created_at: time_text(article.created_at),
        published_at: match article.published_at {
            Some(at) => Some(time_text(at)),
            None => None,
        },
    }
}

/// Whether `item` shows an article.
pub open spec fn shows_item(
    item: CuratedExportItem,
    article: Article,
    refs: ReferencesView,
) -> bool {
    &&& item.item_id@ == refs.item_id
    &&& item.title@ == text::prefix(article.title@, 300)
    &&& item.content_excerpt@ == excerpt_of(article)
    &&& item.content_hash@ == refs.content_hash
    &&& item.source_url_hash@ == refs.source_url_hash
    &&& text::view_opt(item.published_at) == refs.published_at
    &&& text::views(item.tags@) == exported_tags(article.categories@)
}

/// Whether `source` shows where an article comes from.
pub open spec fn shows_source(
    source: CuratedSourceRef,
    contract: ExportContract,
    opml: OpmlDocument,
    feeds: Seq<FlatFeed>,
    refs: ReferencesView,
) -> bool {
    &&& source.source_id@ == "source:"@ + refs.item_reference
    &&& source.source_type@ == "feed_item"@
    &&& source.origin_product@ == contract.origin@
    &&& source.content_hash@ == refs.content_hash
    &&& source.provenance_id@ == "provenance:"@ + ("export:"@ + refs.item_reference)
    &&& text::view_opt(source.opml_title) == exported_title(text::view_opt(opml.title))
    &&& source.opml_feed_count == feeds.len()
    &&& text::view_opt(source.first_feed_title) == exported_title(
        if feeds.len() > 0 {
            Some(feeds[0].title@)
        } else {
            None
        },
    )
}

/// Whether `curation` shows what was decided on an article.
pub open spec fn shows_curation(
    curation: CuratedExportCuration,
    evaluation: Evaluation,
    actor: Seq<char>,
    refs: ReferencesView,
) -> bool {
    &&& curation.decision@ == if evaluation.action is Some {
        "saved"@
    } else {
        "rejected"@
    }
    &&& curation.reason@ == (match evaluation.deciding_rule {
        Some(rule) => rule@,
        None => "No rule matched"@,
    })
    &&& curation.curated_by@ == actor
    &&& curation.curated_at@ == refs.created_at
}

/// Whether `evidence` shows what a rule made of an article.
pub open spec fn shows_evidence(
    evidence: CuratedRuleEvidence,
    decisions: Seq<Decision>,
    refs: ReferencesView,
) -> bool {
    &&& evidence.rule_id@ == refs.rule_id
    &&& evidence.decision@ == outcome_word(decisions)
    &&& evidence.explanation@ == if decisions.len() > 0 {
        decisions[0].explanation@
    } else {
        "Rule was not evaluated"@
    }
    &&& evidence.evidence_hash@ == refs.evidence_hash
    &&& evidence.confidence_bits == if decisions.len() > 0 {
        decisions[0].confidence_bits
    } else {
        0
    }
}

/// Whether `constraints` rules out everything that an export must not hold or allow.
pub open spec fn rules_out_everything(constraints: CuratedExportConstraints) -> bool {
    &&& !constraints.contains_raw_private_content
    &&& !constraints.contains_secrets
    &&& !constraints.contains_byok_material
    &&& !constraints.allow_downstream_execution
}

/// Whether `export` is the export of an article that refers to it in this way.
pub open spec fn is_assembled(
    export: CuratedItemExport,
    contract: ExportContract,
    opml: OpmlDocument,
    feeds: Seq<FlatFeed>,
    article: Article,
    evaluation: Evaluation,
    actor: Seq<char>,
    refs: ReferencesView,
) -> bool {
    &&& export.format@ == contract.format@
    &&& export.export_id@ == "export:"@ + refs.item_reference
    &&& export.origin_product@ == contract.origin@
    &&& export.workspace_id@ == "workspace:local-demo"@
    &&& export.created_by@ == actor
    &&& export.created_at@ == refs.created_at
    &&& export.purpose@ == contract.purpose@
    &&& export.privacy_classification@ == "normal"@
    &&& shows_item(export.item, article, refs)
    &&& shows_source(export.source_ref, contract, opml, feeds, refs)
    &&& shows_curation(export.curation, evaluation, actor, refs)
    &&& export.rule_evidence@.len() == 1
    &&& shows_evidence(export.rule_evidence@[0], evaluation.decisions@, refs)
    &&& rules_out_everything(export.constraints)
    &&& export.constraints.data_residency@ == "EU/local-first"@
    &&& export.constraints.retention_policy_ref@ == "retention:feedmind-local-demo"@
    &&& export.artifact_ref.artifact_id@ == "artifact:"@ + ("export:"@ + refs.item_reference)
    &&& export.artifact_ref.artifact_type@ == "curated_export"@
    &&& export.artifact_ref.hash@ == refs.artifact_hash
    &&& export.artifact_ref.manifest_ref@ == "manifest:feedmind-local-demo"@
    &&& export.provenance_ref.provenance_id@ == "provenance:"@ + ("export:"@
        + refs.item_reference)
    &&& export.provenance_ref.operation@ == "exported"@
    &&& export.provenance_ref.timestamp@ == refs.created_at
}

/// Whether `export` is the export of an article.
pub open spec fn is_export(
    export: CuratedItemExport,
    contract: ExportContract,
    opml: OpmlDocument,
    feeds: Seq<FlatFeed>,
    article: Article,
    input: RuleInput,
    evaluation: Evaluation,
    actor: Seq<char>,
) -> bool {
    is_assembled(
        export,
        contract,
        opml,
        feeds,
        article,
        evaluation,
        actor,
        references_of(article, input, evaluation.decisions@),
    )
}

/// The first `max_chars` characters of a text.
pub fn truncate_for_export(value: &str, max_chars: usize) -> (res: String)
    ensures
        res@ == text::prefix(value@, max_chars as nat),
{
    text::take_chars(value, max_chars)
}

/// What an export shows of the text of an article.
pub fn content_excerpt(article: &Article) -> (res: String)
    ensures
        res@ == excerpt_of(*article),
{
    match &article.summary {
        Some(summary) => text::take_chars(summary.as_str(), 2000),
        None => match &article.content {
            Some(content) => text::take_chars(content.as_str(), 2000),
            None => text::take_chars(article.title.as_str(), 2000),
        },
    }
}

/// A stable id for a rule, from its name and its pattern.
pub fn stable_rule_id(input: &RuleInput) -> (res: String)
    ensures
        res@ == rule_id_of(*input),
{
    let mut material: String = input.name.clone();
    material.append(":");
    material.append(input.pattern.as_str());
    let digits: String = hash::sha256_hex(material.as_str().as_bytes());
    let mut res: String = "rule:".to_string();
    res.append(text::take_chars(digits.as_str(), 16).as_str());
    res
}

fn append_optional(s: &mut String, value: &Option<String>)
    ensures
        final(s)@ == old(s)@ + text::or_empty(text::view_opt(*value)),
{
    let ghost before = s@;
    if let Some(value) = value {
        s.append(value.as_str());
    }
    proof {
        assert(s@ =~= before + text::or_empty(text::view_opt(*value)));
    }
}

/// Title, summary and content of an article, one below the other.
pub fn content_text(article: &Article) -> (res: String)
    ensures
        res@ == content_material(*article),
{
    let mut res: String = article.title.clone();
    res.append("\n");
    append_optional(&mut res, &article.summary);
    res.append("\n");
    append_optional(&mut res, &article.content);
    res
}

fn evidence_text(evidence: &Vec<Evidence>) -> (res: String)
    ensures
        res@ == text::joined(evidence_lines(evidence@), "|"@),
{
    let mut lines: Vec<String> = Vec::new();
    let mut i: usize = 0;
    while i < evidence.len()
        invariant
            i <= evidence@.len(),
            text::views(lines@) == evidence_lines(evidence@.take(i as int)),
        decreases evidence@.len() - i,
    {
        let piece: &Evidence = &evidence[i];
        let mut line: String = piece.field.clone();
        line.append(":");
        line.append(piece.excerpt.as_str());
        line.append(":");
        append_optional(&mut line, &piece.pattern);
        let ghost before = lines@;
        lines.push(line);
        proof {
            assert(line@ == evidence_line(*piece));
            assert(text::views(lines@) =~= text::views(before).push(line@));
            assert(evidence_lines(evidence@.take(i + 1)) =~= evidence_lines(
                evidence@.take(i as int),
            ).push(evidence_line(*piece)));
        }
        i += 1;
    }
    proof {
        assert(evidence@.take(evidence@.len() as int) =~= evidence@);
    }
    text::join(&lines, "|")
}

/// What the evidence for a rule rests on.
pub fn decision_text(input: &RuleInput, decisions: &Vec<Decision>) -> (res: String)
    ensures
        res@ == evidence_material(*input, decisions@),
{
    let mut res: String = input.name.clone();
    res.append(":");
    if decisions.len() > 0 {
        let decision: &Decision = &decisions[0];
        res.append(decision.explanation.as_str());
        res.append(":");
        res.append(evidence_text(&decision.evidence).as_str());
    } else {
        res.append(input.pattern.as_str());
        res.append(":not_evaluated");
    }
    res
}

fn tags_of(categories: &Vec<String>) -> (res: Vec<String>)
    ensures
        text::views(res@) == exported_tags(categories@),
{
    let count: usize = if categories.len() <= 64 {
        categories.len()
    } else {
        64
    };
    let mut res: Vec<String> = Vec::new();
    while res.len() < count
        invariant
            count <= categories@.len(),
            res@.len() <= count,
            forall|i: int|
                0 <= i < res@.len() ==> (#[trigger] res@[i])@ == text::prefix(categories@[i]@, 64),
        decreases count - res@.len(),
    {
        res.push(truncate_for_export(categories[res.len()].as_str(), 64));
    }
    proof {
        assert(text::views(res@) =~= exported_tags(categories@));
    }
    res
}

fn optional_title(title: Option<&str>) -> (res: Option<String>)
    ensures
        text::view_opt(res) == exported_title(
            match title {
                Some(title) => Some(title@),
                None => None,
            },
        ),
{
    match title {
        Some(title) => Some(truncate_for_export(title, 300)),
        None => None,
    }
}

fn joined_id(prefix: &str, rest: &String) -> (res: String)
    ensures
        res@ == prefix@ + rest@,
{
    let mut res: String = prefix.to_string();
    res.append(rest.as_str());
    res
}

/// What the digest of an export covers.
pub fn artifact_text(
    export_id: &str,
    content_hash: &str,
    source_url_hash: &str,
    evidence_hash: &str,
) -> (res: String)
    ensures
        res@ == artifact_material(export_id@, content_hash@, source_url_hash@, evidence_hash@),
{
    let mut res: String = export_id.to_string();
    res.append(":");
    res.append(content_hash);
    res.append(":");
    res.append(source_url_hash);
    res.append(":");
    res.append(evidence_hash);
    res
}

/// How the export of an article refers to it.
pub fn refer(article: &Article, input: &RuleInput, decisions: &Vec<Decision>) -> (res: References)
    requires
        article.wf(),
    ensures
        res@ == references_of(*article, *input, decisions@),
        is_hex_text(res.item_reference@, 24),
{
    let content_hash: String = hash::sha256_tag(content_text(article).as_str().as_bytes());
    let source: &str = match &article.url {
        Some(url) => url.as_str(),
        None => article.guid.as_str(),
    };
    let source_url_hash: String = hash::sha256_tag(source.as_bytes());
    let evidence_hash: String = hash::sha256_tag(
        decision_text(input, decisions).as_str().as_bytes(),
    );
    let digits: String = hash::sha256_hex(article.guid.as_str().as_bytes());
    let item_reference: String = text::take_chars(digits.as_str(), 24);
    let export_id: String = joined_id("export:", &item_reference);
    let artifact: String = artifact_text(
        export_id.as_str(),
        content_hash.as_str(),
        source_url_hash.as_str(),
        evidence_hash.as_str(),
    );
    let res: References = References {
        item_id: ids::uuid_text(article.id),
        item_reference,
        rule_id: stable_rule_id(input),
        content_hash,
        source_url_hash,
        evidence_hash,
        artifact_hash: hash::sha256_tag(artifact.as_str().as_bytes()),
        created_at: time::rfc3339(article.created_at),
        published_at: match article.published_at {
            Some(at) => Some(time::rfc3339(at)),
            None => None,
        },
    };
    proof {
        assert(res@ =~= references_of(*article, *input, decisions@));
    }
    res
}

/// The export of an article that refers to it in a given way.
pub fn assemble_export(
    contract: &ExportContract,
    opml: &OpmlDocument,
    feeds: &Vec<FlatFeed>,
    article: &Article,
    evaluation: &Evaluation,
    actor: &str,
    refs: References,
) -> (res: CuratedItemExport)
    ensures
        is_assembled(res, *contract, *opml, feeds@, *article, *evaluation, actor@, refs@),
{
    let export_id: String = joined_id("export:", &refs.item_reference);
    let provenance_id: String = joined_id("provenance:", &export_id);
    let decided: bool = evaluation.decisions.len() > 0;
    let decision: &str = if decided {
        match evaluation.decisions[0].outcome {
            DecisionOutcome::Matched => "match",
            DecisionOutcome::NotMatched => "no_match",
            DecisionOutcome::Skipped => "not_evaluated",
        }
    } else {
        "not_evaluated"
    };
    let confidence_bits: u32 = if decided {
        evaluation.decisions[0].confidence_bits
    } else {
        0
    };
    let explanation: String = if decided {
        evaluation.decisions[0].explanation.clone()
    } else {
        "Rule was not evaluated".to_string()
    };
    let reason: String = match &evaluation.deciding_rule {
        Some(rule) => rule.clone(),
        None => "No rule matched".to_string(),
    };
    let verdict: &str = if evaluation.action.is_some() {
        "saved"
    } else {
        "rejected"
    };
    let first_title: Option<&str> = if feeds.len() > 0 {
        Some(feeds[0].title.as_str())
    } else {
        None
    };
    let opml_title: Option<&str> = match &opml.title {
        Some(title) => Some(title.as_str()),
        None => None,
    };
    let source_id: String = joined_id("source:", &refs.item_reference);
    let mut rule_evidence: Vec<CuratedRuleEvidence> = Vec::new();
    rule_evidence.push(
        CuratedRuleEvidence {
            rule_id: refs.rule_id,
            decision: decision.to_string(),
            explanation,
            evidence_hash: refs.evidence_hash,
            confidence_bits,
        },
    );
    CuratedItemExport {
        format: contract.format.clone(),
        export_id: export_id.clone(),
        origin_product: contract.origin.clone(),
        workspace_id: "workspace:local-demo".to_string(),
        created_by: actor.to_string(),
        created_at: refs.created_at.clone(),
        purpose: contract.purpose.clone(),
        privacy_classification: "normal".to_string(),
        item: CuratedExportItem {
            item_id: refs.item_id,
            title: truncate_for_export(article.title.as_str(), 300),
            content_excerpt: content_excerpt(article),
            content_hash: refs.content_hash.clone(),
            source_url_hash: refs.source_url_hash,
            published_at: refs.published_at,
            tags: tags_of(&article.categories),
        },
        source_ref: CuratedSourceRef {
            source_id,
            source_type: "feed_item".to_string(),
            origin_product: contract.origin.clone(),
            content_hash: refs.content_hash,
            provenance_id: provenance_id.clone(),
            opml_title: optional_title(opml_title),
            opml_feed_count: feeds.len(),
            first_feed_title: optional_title(first_title),
        },
        curation: CuratedExportCuration {
            decision: verdict.to_string(),
            reason,
            curated_by: actor.to_string(),
            curated_at: refs.created_at.clone(),
        },
        rule_evidence,
        constraints: CuratedExportConstraints {
            contains_raw_private_content: false,
            contains_secrets: false,
            contains_byok_material: false,
            allow_downstream_execution: false,
            data_residency: "EU/local-first".to_string(),
            retention_policy_ref: "retention:feedmind-local-demo".to_string(),
        },
        artifact_ref: CuratedArtifactRef {
            artifact_id: joined_id("artifact:", &export_id),
            artifact_type: "curated_export".to_string(),
            hash: refs.artifact_hash,
            manifest_ref: "manifest:feedmind-local-demo".to_string(),
        },
        provenance_ref: CuratedProvenanceRef {
            provenance_id,
            operation: "exported".to_string(),
            timestamp: refs.created_at,
        },
    }
}

/// The export of an article, from what came of holding it against a rule. The export names
/// the article by digests, so that neither its guid nor its address can be read from it.
pub fn build_curated_export(
    contract: &ExportContract,
    opml: &OpmlDocument,
    feeds: &Vec<FlatFeed>,
    article: &Article,
    input: &RuleInput,
    evaluation: &Evaluation,
    actor: &str,
) -> (res: CuratedItemExport)
    requires
        article.wf(),
    ensures
        is_export(res, *contract, *opml, feeds@, *article, *input, *evaluation, actor@),
        is_hex_text(item_reference(article.guid@), 24),
{
    let refs: References = refer(article, input, &evaluation.decisions);
    assemble_export(contract, opml, feeds, article, evaluation, actor, refs)
}

/// What an export shows of an article is bounded: 300 characters of the title, 2000 of the
/// text, and 64 tags of 64 characters each.
pub proof fn export_is_bounded(
    item: CuratedExportItem,
    article: Article,
    refs: ReferencesView,
)
    requires
        shows_item(item, article, refs),
    ensures
        item.title@.len() <= 300,
        item.content_excerpt@.len() <= 2000,
        item.tags@.len() <= 64,
        forall|i: int| 0 <= i < item.tags@.len() ==> (#[trigger] item.tags@[i])@.len() <= 64,
{
    let shown = text::views(item.tags@);
    assert(shown.len() == item.tags@.len());
    assert forall|i: int| 0 <= i < item.tags@.len() implies (#[trigger] item.tags@[i])@.len()
        <= 64 by {
        assert(shown[i] == item.tags@[i]@);
    }
}

/// Articles with the same guid have the same ids in every export, whatever else differs.
pub proof fn exported_ids_are_stable(
    a: CuratedItemExport,
    b: CuratedItemExport,
    contracts: (ExportContract, ExportContract),
    documents: (OpmlDocument, OpmlDocument),
    feeds: (Seq<FlatFeed>, Seq<FlatFeed>),
    articles: (Article, Article),
    inputs: (RuleInput, RuleInput),
    evaluations: (Evaluation, Evaluation),
    actors: (Seq<char>, Seq<char>),
)
    requires
        is_export(
            a,
            contracts.0,
            documents.0,
            feeds.0,
            articles.0,
            inputs.0,
            evaluations.0,
            actors.0,
        ),
        is_export(
            b,
            contracts.1,
            documents.1,
            feeds.1,
            articles.1,
            inputs.1,
            evaluations.1,
            actors.1,
        ),
        articles.0.guid@ == articles.1.guid@,
    ensures
        a.export_id@ == b.export_id@,
        a.source_ref.source_id@ == b.source_ref.source_id@,
        a.provenance_ref.provenance_id@ == b.provenance_ref.provenance_id@,
        a.artifact_ref.artifact_id@ == b.artifact_ref.artifact_id@,
{
}

/// Whether a text lists some parts with one character between them, and nothing else.
pub open spec fn lists_parts(s: Seq<char>, parts: Seq<Seq<char>>, between: char) -> bool
    decreases parts.len(),
{
    if parts.len() == 0 {
        s.len() == 0
    } else if parts.len() == 1 {
        s == parts[0]
    } else {
        &&& text::ends_with(s, parts.last())
        &&& s.len() > parts.last().len()
        &&& s[s.len() - parts.last().len() - 1] == between
        &&& lists_parts(
            s.take(s.len() - parts.last().len() - 1),
            parts.drop_last(),
            between,
        )
    }
}

/// Texts that list as many parts, the same ones but for one place, differ if and only if the
/// parts at that place do.
pub proof fn listed_parts_count(
    a: Seq<char>,
    b: Seq<char>,
    parts: Seq<Seq<char>>,
    others: Seq<Seq<char>>,
    between: char,
    k: int,
)
    requires
        parts.len() == others.len(),
        0 <= k < parts.len(),
        forall|i: int| 0 <= i < parts.len() && i != k ==> parts[i] == others[i],
        lists_parts(a, parts, between),
        lists_parts(b, others, between),
    ensures
        a == b <==> parts[k] == others[k],
    decreases parts.len(),
{
    if parts.len() > 1 {
        let last = parts.len() - 1;
        let m = a.len() - parts.last().len() - 1;
        let n = b.len() - others.last().len() - 1;
        assert(a =~= a.take(m) + seq![between] + parts.last());
        assert(b =~= b.take(n) + seq![between] + others.last());
        if k < last {
            assert(parts.last() == others.last());
            listed_parts_count(
                a.take(m),
                b.take(n),
                parts.drop_last(),
                others.drop_last(),
                between,
                k,
            );
            if a == b {
                assert(m == n);
            }
        } else {
            lemma_same_parts(a.take(m), b.take(n), parts.drop_last(), others.drop_last(), between);
            if a == b {
                assert(a.skip(m + 1) =~= parts.last());
                assert(b.skip(n + 1) =~= others.last());
            }
        }
    }
}

proof fn lemma_same_parts(
    a: Seq<char>,
    b: Seq<char>,
    parts: Seq<Seq<char>>,
    others: Seq<Seq<char>>,
    between: char,
)
    requires
        parts.len() == others.len(),
        forall|i: int| 0 <= i < parts.len() ==> parts[i] == others[i],
        lists_parts(a, parts, between),
        lists_parts(b, others, between),
    ensures
        a == b,
    decreases parts.len(),
{
    if parts.len() == 0 {
        assert(a =~= b);
    } else if parts.len() > 1 {
        let m = a.len() - parts.last().len() - 1;
        let n = b.len() - others.last().len() - 1;
        assert(a =~= a.take(m) + seq![between] + parts.last());
        assert(b =~= b.take(n) + seq![between] + others.last());
        lemma_same_parts(a.take(m), b.take(n), parts.drop_last(), others.drop_last(), between);
    }
}

proof fn lemma_lists_one_more(
    s: Seq<char>,
    parts: Seq<Seq<char>>,
    between: char,
    part: Seq<char>,
    all: Seq<char>,
)
    requires
        parts.len() > 0,
        lists_parts(s, parts, between),
        all == s + seq![between] + part,
    ensures
        lists_parts(all, parts.push(part), between),
{
    assert(parts.push(part).drop_last() =~= parts);
    assert(all.skip(all.len() - part.len()) =~= part);
    assert(all.take(all.len() - part.len() - 1) =~= s);
}

proof fn lemma_lists_three(
    all: Seq<char>,
    a: Seq<char>,
    b: Seq<char>,
    c: Seq<char>,
    between: char,
)
    requires
        all == a + seq![between] + b + seq![between] + c,
    ensures
        lists_parts(all, seq![a, b, c], between),
{
    let two = a + seq![between] + b;
    assert(lists_parts(a, seq![a], between));
    lemma_lists_one_more(a, seq![a], between, b, two);
    assert(seq![a].push(b) =~= seq![a, b]);
    lemma_lists_one_more(two, seq![a, b], between, c, all);
    assert(seq![a, b].push(c) =~= seq![a, b, c]);
}

/// The text behind the content hash of an article lists its title, its summary and its content,
/// in this order and in lines of their own.
pub proof fn content_hash_covers_the_article(article: Article)
    ensures
        lists_parts(
            content_material(article),
            seq![
                article.title@,
                text::or_empty(text::view_opt(article.summary)),
                text::or_empty(text::view_opt(article.content)),
            ],
            '\n',
        ),
        text::begins_with(content_material(article), article.title@),
        article.content matches Some(content) ==> text::ends_with(
            content_material(article),
            content@,
        ),
        article.summary matches Some(summary) ==> text::occurs_in(
            summary@,
            content_material(article),
        ),
{
    reveal_strlit("\n");
    let line = seq!['\n'];
    assert("\n"@ =~= line);
    let title = article.title@;
    let summary = text::or_empty(text::view_opt(article.summary));
    let content = text::or_empty(text::view_opt(article.content));
    let all = content_material(article);
    lemma_lists_three(all, title, summary, content, '\n');
    assert(all.take(title.len() as int) =~= title);
    assert(all.skip(all.len() - content.len()) =~= content);
    let at = title.len() as int + 1;
    assert(all.skip(at).take(summary.len() as int) =~= summary);
    assert(text::begins_with(all.skip(at), summary));
}

/// Articles that differ in their content alone, in their summary alone or in their title alone
/// have different texts behind their content hashes.
pub proof fn changed_article_changes_its_content_text(a: Article, b: Article)
    ensures
        a.title@ == b.title@ && text::view_opt(a.summary) == text::view_opt(b.summary)
            && text::or_empty(text::view_opt(a.content)) != text::or_empty(
            text::view_opt(b.content),
        ) ==> content_material(a) != content_material(b),
        a.title@ == b.title@ && text::view_opt(a.content) == text::view_opt(b.content)
            && text::or_empty(text::view_opt(a.summary)) != text::or_empty(
            text::view_opt(b.summary),
        ) ==> content_material(a) != content_material(b),
        text::view_opt(a.summary) == text::view_opt(b.summary) && text::view_opt(a.content)
            == text::view_opt(b.content) && a.title@ != b.title@ ==> content_material(a)
            != content_material(b),
{
    let parts = seq![
        a.title@,
        text::or_empty(text::view_opt(a.summary)),
        text::or_empty(text::view_opt(a.content)),
    ];
    let others = seq![
        b.title@,
        text::or_empty(text::view_opt(b.summary)),
        text::or_empty(text::view_opt(b.content)),
    ];
    content_hash_covers_the_article(a);
    content_hash_covers_the_article(b);
    let x = content_material(a);
    let y = content_material(b);
    if parts[0] == others[0] && parts[1] == others[1] {
        listed_parts_count(x, y, parts, others, '\n', 2);
    }
    if parts[0] == others[0] && parts[2] == others[2] {
        listed_parts_count(x, y, parts, others, '\n', 1);
    }
    if parts[1] == others[1] && parts[2] == others[2] {
        listed_parts_count(x, y, parts, others, '\n', 0);
    }
}

/// A piece of evidence lists its field, its excerpt and its pattern.
pub proof fn evidence_line_covers_the_evidence(e: Evidence)
    ensures
        lists_parts(
            evidence_line(e),
            seq![e.field@, e.excerpt@, text::or_empty(text::view_opt(e.pattern))],
            ':',
        ),
{
    reveal_strlit(":");
    let colon = seq![':'];
    assert(":"@ =~= colon);
    let pattern = text::or_empty(text::view_opt(e.pattern));
    lemma_lists_three(evidence_line(e), e.field@, e.excerpt@, pattern, ':');
}

proof fn lemma_joined_lists(parts: Seq<Seq<char>>, sep: Seq<char>, between: char)
    requires
        sep == seq![between],
    ensures
        lists_parts(text::joined(parts, sep), parts, between),
    decreases parts.len(),
{
    if parts.len() > 1 {
        let fewer = parts.drop_last();
        lemma_joined_lists(fewer, sep, between);
        lemma_lists_one_more(
            text::joined(fewer, sep),
            fewer,
            between,
            parts.last(),
            text::joined(parts, sep),
        );
        assert(fewer.push(parts.last()) =~= parts);
    }
}

/// The text behind the evidence hash lists the name of the rule, the explanation of the first
/// decision and all its evidence, piece by piece, or the name and the pattern of the rule and
/// that it was not evaluated.
pub proof fn evidence_hash_covers_the_first_decision(
    input: RuleInput,
    decisions: Seq<Decision>,
    pieces: Seq<char>,
)
    requires
        decisions.len() > 0 ==> lists_parts(
            pieces,
            Seq::new(
                decisions[0].evidence@.len(),
                |i: int| evidence_line(decisions[0].evidence@[i]),
            ),
            '|',
        ),
    ensures
        decisions.len() > 0 ==> lists_parts(
            evidence_material(input, decisions),
            seq![input.name@, decisions[0].explanation@, pieces],
            ':',
        ),
        decisions.len() == 0 ==> lists_parts(
            evidence_material(input, decisions),
            seq![input.name@, input.pattern@, "not_evaluated"@],
            ':',
        ),
{
    reveal_strlit(":");
    reveal_strlit("|");
    let colon = seq![':'];
    assert(":"@ =~= colon);
    assert("|"@ =~= seq!['|']);
    let name = input.name@;
    let all = evidence_material(input, decisions);
    if decisions.len() > 0 {
        let lines = evidence_lines(decisions[0].evidence@);
        lemma_joined_lists(lines, "|"@, '|');
        let same = Seq::new(
            decisions[0].evidence@.len(),
            |i: int| evidence_line(decisions[0].evidence@[i]),
        );
        assert(lines =~= same);
        lemma_same_parts(pieces, text::joined(lines, "|"@), same, lines, '|');
        lemma_lists_three(all, name, decisions[0].explanation@, pieces, ':');
    } else {
        reveal_strlit(":not_evaluated");
        reveal_strlit("not_evaluated");
        assert(":not_evaluated"@ =~= colon + "not_evaluated"@);
        assert(all =~= name + colon + input.pattern@ + colon + "not_evaluated"@);
        lemma_lists_three(all, name, input.pattern@, "not_evaluated"@, ':');
    }
}

/// The hash of the artifact covers the id of the export and the three hashes in it.
pub proof fn artifact_hash_covers_the_export(
    export_id: Seq<char>,
    content_hash: Seq<char>,
    source_url_hash: Seq<char>,
    evidence_hash: Seq<char>,
)
    ensures
        lists_parts(
            artifact_material(export_id, content_hash, source_url_hash, evidence_hash),
            seq![export_id, content_hash, source_url_hash, evidence_hash],
            ':',
        ),
{
    reveal_strlit(":");
    let colon = seq![':'];
    assert(":"@ =~= colon);
    let two = export_id + colon + content_hash;
    let three = two + colon + source_url_hash;
    assert(lists_parts(export_id, seq![export_id], ':'));
    lemma_lists_one_more(export_id, seq![export_id], ':', content_hash, two);
    assert(seq![export_id].push(content_hash) =~= seq![export_id, content_hash]);
    lemma_lists_one_more(two, seq![export_id, content_hash], ':', source_url_hash, three);
    assert(seq![export_id, content_hash].push(source_url_hash) =~= seq![
        export_id,
        content_hash,
        source_url_hash,
    ]);
    lemma_lists_one_more(
        three,
        seq![export_id, content_hash, source_url_hash],
        ':',
        evidence_hash,
        three + colon + evidence_hash,
    );
    assert(seq![export_id, content_hash, source_url_hash].push(evidence_hash) =~= seq![
        export_id,
        content_hash,
        source_url_hash,
        evidence_hash,
    ]);
}

/// The hashes in an export are those of what they name: for any texts that list the title,
/// the summary and the content, the parts of the evidence, and the parts of the artifact. The
/// source is hashed by its address, or by its guid where it has none.
pub proof fn export_hashes_what_it_names(
    export: CuratedItemExport,
    contract: ExportContract,
    opml: OpmlDocument,
    feeds: Seq<FlatFeed>,
    article: Article,
    input: RuleInput,
    evaluation: Evaluation,
    actor: Seq<char>,
    content: Seq<char>,
    pieces: Seq<char>,
    evidence: Seq<char>,
    artifact: Seq<char>,
)
    requires
        is_export(export, contract, opml, feeds, article, input, evaluation, actor),
        lists_parts(
            content,
            seq![
                article.title@,
                text::or_empty(text::view_opt(article.summary)),
                text::or_empty(text::view_opt(article.content)),
            ],
            '\n',
        ),
        evaluation.decisions@.len() > 0 ==> lists_parts(
            pieces,
            Seq::new(
                evaluation.decisions@[0].evidence@.len(),
                |i: int| evidence_line(evaluation.decisions@[0].evidence@[i]),
            ),
            '|',
        ) && lists_parts(
            evidence,
            seq![input.name@, evaluation.decisions@[0].explanation@, pieces],
            ':',
        ),
        evaluation.decisions@.len() == 0 ==> lists_parts(
            evidence,
            seq![input.name@, input.pattern@, "not_evaluated"@],
            ':',
        ),
        lists_parts(
            artifact,
            seq![
                export.export_id@,
                export.item.content_hash@,
                export.item.source_url_hash@,
                export.rule_evidence@[0].evidence_hash@,
            ],
            ':',
        ),
    ensures
        export.item.content_hash@ == tag(content),
        export.source_ref.content_hash@ == tag(content),
        article.url matches Some(url) ==> export.item.source_url_hash@ == tag(url@),
        article.url is None ==> export.item.source_url_hash@ == tag(article.guid@),
        export.rule_evidence@[0].evidence_hash@ == tag(evidence),
        export.artifact_ref.hash@ == tag(artifact),
{
    let parts = seq![
        article.title@,
        text::or_empty(text::view_opt(article.summary)),
        text::or_empty(text::view_opt(article.content)),
    ];
    content_hash_covers_the_article(article);
    lemma_same_parts(content, content_material(article), parts, parts, '\n');
    let decisions = evaluation.decisions@;
    evidence_hash_covers_the_first_decision(input, decisions, pieces);
    let shown = if decisions.len() > 0 {
        seq![input.name@, decisions[0].explanation@, pieces]
    } else {
        seq![input.name@, input.pattern@, "not_evaluated"@]
    };
    lemma_same_parts(evidence, evidence_material(input, decisions), shown, shown, ':');
    let refs = references_of(article, input, decisions);
    artifact_hash_covers_the_export(
        export.export_id@,
        refs.content_hash,
        refs.source_url_hash,
        refs.evidence_hash,
    );
    let named = seq![
        export.export_id@,
        export.item.content_hash@,
        export.item.source_url_hash@,
        export.rule_evidence@[0].evidence_hash@,
    ];
    lemma_same_parts(
        artifact,
        artifact_material(
            export.export_id@,
            refs.content_hash,
            refs.source_url_hash,
            refs.evidence_hash,
        ),
        named,
        named,
        ':',
    );
}

/// What an export shows of an article is the article's own: a title and an excerpt that it begins
/// with, whole where they are short enough, and its tags in order. The excerpt is of the summary,
/// of the content where there is no summary, and of the title where there is neither.
pub proof fn export_shows_the_article(
    export: CuratedItemExport,
    contract: ExportContract,
    opml: OpmlDocument,
    feeds: Seq<FlatFeed>,
    article: Article,
    input: RuleInput,
    evaluation: Evaluation,
    actor: Seq<char>,
    body: Seq<char>,
)
    requires
        is_export(export, contract, opml, feeds, article, input, evaluation, actor),
        article.summary matches Some(summary) ==> body == summary@,
        article.summary is None && article.content is Some ==> body == article.content->0@,
        article.summary is None && article.content is None ==> body == article.title@,
    ensures
        export.item.item_id@ == ids::hyphenated(article.id),
        text::begins_with(article.title@, export.item.title@),
        article.title@.len() <= 300 ==> export.item.title@ == article.title@,
        article.title@.len() >= 300 ==> export.item.title@.len() == 300,
        text::begins_with(body, export.item.content_excerpt@),
        body.len() <= 2000 ==> export.item.content_excerpt@ == body,
        body.len() >= 2000 ==> export.item.content_excerpt@.len() == 2000,
        export.item.tags@.len() <= article.categories@.len(),
        article.categories@.len() <= 64 ==> export.item.tags@.len() == article.categories@.len(),
        article.categories@.len() >= 64 ==> export.item.tags@.len() == 64,
        forall|i: int|
            0 <= i < export.item.tags@.len() ==> {
                let shown = (#[trigger] export.item.tags@[i])@;
                let whole = article.categories@[i]@;
                &&& text::begins_with(whole, shown)
                &&& whole.len() <= 64 ==> shown == whole
                &&& whole.len() >= 64 ==> shown.len() == 64
            },
        export.item.published_at is Some <==> article.published_at is Some,
        article.published_at matches Some(at) ==> text::view_opt(export.item.published_at) == Some(
            time::rfc3339_text(at),
        ),
        export.created_at@ == time::rfc3339_text(article.created_at),
        export.curation.curated_at@ == export.created_at@,
        export.provenance_ref.timestamp@ == export.created_at@,
        export.created_by@ == actor,
        export.curation.curated_by@ == actor,
        export.source_ref.opml_feed_count == feeds.len(),
        opml.title is None ==> export.source_ref.opml_title is None,
        opml.title matches Some(title) ==> export.source_ref.opml_title is Some
            && text::begins_with(title@, export.source_ref.opml_title->0@) && (title@.len() <= 300
            ==> export.source_ref.opml_title->0@ == title@),
        feeds.len() == 0 ==> export.source_ref.first_feed_title is None,
        feeds.len() > 0 ==> export.source_ref.first_feed_title is Some && text::begins_with(
            feeds[0].title@,
            export.source_ref.first_feed_title->0@,
        ) && (feeds[0].title@.len() <= 300 ==> export.source_ref.first_feed_title->0@
            == feeds[0].title@),
{
    let shown = text::views(export.item.tags@);
    assert(shown.len() == export.item.tags@.len());
    lemma_prefix(article.title@, 300);
    lemma_prefix(body, 2000);
    assert forall|i: int| 0 <= i < export.item.tags@.len() implies {
        let shown = (#[trigger] export.item.tags@[i])@;
        let whole = article.categories@[i]@;
        &&& text::begins_with(whole, shown)
        &&& whole.len() <= 64 ==> shown == whole
        &&& whole.len() >= 64 ==> shown.len() == 64
    } by {
        assert(shown[i] == export.item.tags@[i]@);
        lemma_prefix(article.categories@[i]@, 64);
    }
    if let Some(title) = opml.title {
        lemma_prefix(title@, 300);
    }
    if feeds.len() > 0 {
        lemma_prefix(feeds[0].title@, 300);
    }
}

proof fn lemma_prefix(s: Seq<char>, max: nat)
    ensures
        text::begins_with(s, text::prefix(s, max)),
        s.len() <= max ==> text::prefix(s, max) == s,
        s.len() >= max ==> text::prefix(s, max).len() == max,
{
    assert(s.take(s.len() as int) =~= s);
    assert(s.take(max as int).len() == max || s.len() < max);
}

/// The decision in an export is explained by its rule: an article is saved if and only if an
/// action was taken, the reason is the rule that decided, and the evidence says what the first
/// decision says.
pub proof fn export_explains_the_decision(
    export: CuratedItemExport,
    contract: ExportContract,
    opml: OpmlDocument,
    feeds: Seq<FlatFeed>,
    article: Article,
    input: RuleInput,
    evaluation: Evaluation,
    actor: Seq<char>,
)
    requires
        is_export(export, contract, opml, feeds, article, input, evaluation, actor),
    ensures
        export.curation.decision@ == "saved"@ <==> evaluation.action is Some,
        export.curation.decision@ == "rejected"@ <==> evaluation.action is None,
        evaluation.deciding_rule matches Some(rule) ==> export.curation.reason@ == rule@,
        evaluation.deciding_rule is None ==> export.curation.reason@ == "No rule matched"@,
        export.rule_evidence@.len() == 1,
        ({
            let shown = export.rule_evidence@[0];
            let decisions = evaluation.decisions@;
            &&& decisions.len() > 0 ==> shown.explanation@ == decisions[0].explanation@
                && shown.confidence_bits == decisions[0].confidence_bits
            &&& decisions.len() == 0 ==> shown.decision@ == "not_evaluated"@
                && shown.explanation@ == "Rule was not evaluated"@ && shown.confidence_bits == 0
            &&& shown.decision@ == "match"@ <==> decisions.len() > 0 && decisions[0].outcome
                == DecisionOutcome::Matched
            &&& shown.decision@ == "no_match"@ <==> decisions.len() > 0 && decisions[0].outcome
                == DecisionOutcome::NotMatched
            &&& shown.rule_id@ == "rule:"@ + hash::digest_hex(
                vstd::utf8::encode_utf8(input.name@ + ":"@ + input.pattern@),
            ).take(16)
        }),
        !export.constraints.contains_raw_private_content,
        !export.constraints.contains_secrets,
        !export.constraints.contains_byok_material,
        !export.constraints.allow_downstream_execution,
{
    reveal_strlit("saved");
    reveal_strlit("rejected");
    reveal_strlit("match");
    reveal_strlit("no_match");
    reveal_strlit("not_evaluated");
    assert("saved"@.len() != "rejected"@.len());
    assert("match"@.len() != "no_match"@.len());
    assert("match"@.len() != "not_evaluated"@.len());
    assert("no_match"@.len() != "not_evaluated"@.len());
}

/// The ids in an export hang together: each names the same digits, which are those that the
/// digest of the guid begins with.
pub proof fn export_ids_hang_together(
    export: CuratedItemExport,
    contract: ExportContract,
    opml: OpmlDocument,
    feeds: Seq<FlatFeed>,
    article: Article,
    input: RuleInput,
    evaluation: Evaluation,
    actor: Seq<char>,
    reference: Seq<char>,
)
    requires
        is_export(export, contract, opml, feeds, article, input, evaluation, actor),
        reference.len() == 24,
        text::begins_with(
            hash::hex(hash::sha256(vstd::utf8::encode_utf8(article.guid@))),
            reference,
        ),
    ensures
        export.export_id@ == "export:"@ + reference,
        export.source_ref.source_id@ == "source:"@ + reference,
        export.provenance_ref.provenance_id@ == "provenance:"@ + export.export_id@,
        export.source_ref.provenance_id@ == export.provenance_ref.provenance_id@,
        export.artifact_ref.artifact_id@ == "artifact:"@ + export.export_id@,
        export.origin_product@ == contract.origin@,
        export.source_ref.origin_product@ == contract.origin@,
        export.format@ == contract.format@,
        export.purpose@ == contract.purpose@,
{
}

/// What is hashed of an article lists its title, its summary and its content, what is hashed of a
/// decision the rule, the reason and the evidence, and what is hashed of an export its id and
/// the three other hashes.
pub proof fn hashed_texts_list_their_parts(
    article: Article,
    content: String,
    input: RuleInput,
    none: Vec<Decision>,
    unevaluated: String,
    export_id: &str,
    content_hash: &str,
    source_url_hash: &str,
    evidence_hash: &str,
    artifact: String,
)
    requires
        call_ensures(content_text, (&article,), content),
        none@.len() == 0,
        call_ensures(decision_text, (&input, &none), unevaluated),
        call_ensures(
            artifact_text,
            (export_id, content_hash, source_url_hash, evidence_hash),
            artifact,
        ),
    ensures
        lists_parts(
            content@,
            seq![
                article.title@,
                text::or_empty(text::view_opt(article.summary)),
                text::or_empty(text::view_opt(article.content)),
            ],
            '\n',
        ),
        lists_parts(unevaluated@, seq![input.name@, input.pattern@, "not_evaluated"@], ':'),
        lists_parts(
            artifact@,
            seq![export_id@, content_hash@, source_url_hash@, evidence_hash@],
            ':',
        ),
{
    content_hash_covers_the_article(article);
    evidence_hash_covers_the_first_decision(input, none@, Seq::empty());
    artifact_hash_covers_the_export(export_id@, content_hash@, source_url_hash@, evidence_hash@);
}

/// What is hashed of a decision that was made lists the rule, the reason and the evidence.
pub proof fn hashed_decision_lists_its_parts(
    input: RuleInput,
    decisions: Vec<Decision>,
    pieces: Seq<char>,
    res: String,
)
    requires
        decisions@.len() > 0,
        lists_parts(
            pieces,
            Seq::new(
                decisions@[0].evidence@.len(),
                |i: int| evidence_line(decisions@[0].evidence@[i]),
            ),
            '|',
        ),
        call_ensures(decision_text, (&input, &decisions), res),
    ensures
        lists_parts(res@, seq![input.name@, decisions@[0].explanation@, pieces], ':'),
{
    evidence_hash_covers_the_first_decision(input, decisions@, pieces);
}

/// What is shown of a long text is what it begins with. An excerpt is of the summary, of the
/// content where there is no summary, and of the title where there is neither. A rule is known
/// by its name and its pattern.
pub proof fn excerpts_begin_their_texts(
    value: &str,
    max_chars: usize,
    short: String,
    article: Article,
    excerpt: String,
    input: RuleInput,
    rule_id: String,
)
    requires
        call_ensures(truncate_for_export, (value, max_chars), short),
        call_ensures(content_excerpt, (&article,), excerpt),
        call_ensures(stable_rule_id, (&input,), rule_id),
    ensures
        text::begins_with(value@, short@),
        value@.len() <= max_chars ==> short@ == value@,
        value@.len() >= max_chars ==> short@.len() == max_chars,
        ({
            let body = if article.summary is Some {
                article.summary->0@
            } else if article.content is Some {
                article.content->0@
            } else {
                article.title@
            };
            &&& text::begins_with(body, excerpt@)
            &&& body.len() <= 2000 ==> excerpt@ == body
            &&& body.len() >= 2000 ==> excerpt@.len() == 2000
        }),
        rule_id@ == "rule:"@ + hash::digest_hex(
            vstd::utf8::encode_utf8(input.name@ + ":"@ + input.pattern@),
        ).take(16),
{
    lemma_prefix(value@, max_chars as nat);
    let body = if article.summary is Some {
        article.summary->0@
    } else if article.content is Some {
        article.content->0@
    } else {
        article.title@
    };
    lemma_prefix(body, 2000);
}

/// How an export refers to what it is about is told by the article and the rule alone: each hash
/// is that of its own text.
pub proof fn references_are_those_of_the_article(
    article: Article,
    input: RuleInput,
    decisions: Vec<Decision>,
    res: References,
    content: String,
    evidence: String,
    rule_id: String,
)
    requires
        call_ensures(refer, (&article, &input, &decisions), res),
        call_ensures(content_text, (&article,), content),
        call_ensures(decision_text, (&input, &decisions), evidence),
        call_ensures(stable_rule_id, (&input,), rule_id),
    ensures
        res.item_id@ == ids::hyphenated(article.id),
        res.item_reference@.len() == 24,
        text::begins_with(
            hash::hex(hash::sha256(vstd::utf8::encode_utf8(article.guid@))),
            res.item_reference@,
        ) || hash::hex(hash::sha256(vstd::utf8::encode_utf8(article.guid@))).len() < 24,
        res.rule_id@ == rule_id@,
        res.content_hash@ == "sha256:"@ + hash::digest_hex(vstd::utf8::encode_utf8(content@)),
        res.evidence_hash@ == "sha256:"@ + hash::digest_hex(vstd::utf8::encode_utf8(evidence@)),
        res.source_url_hash@ == "sha256:"@ + hash::digest_hex(
            vstd::utf8::encode_utf8(
                if article.url is Some {
                    article.url->0@
                } else {
                    article.guid@
                },
            ),
        ),
        res.created_at@ == time::rfc3339_text(article.created_at),
        res.published_at is Some <==> article.published_at is Some,
        article.published_at matches Some(at) ==> res.published_at->0@ == time::rfc3339_text(at),
{
}

/// The export that is built is about the article, the rule and the decision that it was built of.
pub proof fn built_export_is_about_its_article(
    contract: ExportContract,
    opml: OpmlDocument,
    feeds: Vec<FlatFeed>,
    article: Article,
    input: RuleInput,
    evaluation: Evaluation,
    actor: &str,
    res: CuratedItemExport,
    content: String,
)
    requires
        call_ensures(
            build_curated_export,
            (&contract, &opml, &feeds, &article, &input, &evaluation, actor),
            res,
        ),
        call_ensures(content_text, (&article,), content),
    ensures
        is_export(res, contract, opml, feeds@, article, input, evaluation, actor@),
        res.item.item_id@ == ids::hyphenated(article.id),
        text::begins_with(article.title@, res.item.title@),
        res.curation.decision@ == "saved"@ <==> evaluation.action is Some,
        res.curation.decision@ == "rejected"@ <==> evaluation.action is None,
        evaluation.deciding_rule matches Some(rule) ==> res.curation.reason@ == rule@,
        res.rule_evidence@.len() == 1,
        res.export_id@ == "export:"@ + hash::digest_hex(
            vstd::utf8::encode_utf8(article.guid@),
        ).take(24),
{
    let body = if article.summary is Some {
        article.summary->0@
    } else if article.content is Some {
        article.content->0@
    } else {
        article.title@
    };
    export_shows_the_article(
        res,
        contract,
        opml,
        feeds@,
        article,
        input,
        evaluation,
        actor@,
        body,
    );
    export_explains_the_decision(res, contract, opml, feeds@, article, input, evaluation, actor@);
}

/// An export says where it was made and for what, who made it and when, and what may be done with
/// it: it is an ordinary export of a feed item that stays in its place, holds nothing private and
/// allows nothing.
pub proof fn export_says_what_it_is(
    contract: ExportContract,
    opml: OpmlDocument,
    feeds: Vec<FlatFeed>,
    article: Article,
    evaluation: Evaluation,
    actor: &str,
    refs: References,
    res: CuratedItemExport,
)
    requires
        call_ensures(
            assemble_export,
            (&contract, &opml, &feeds, &article, &evaluation, actor, refs),
            res,
        ),
    ensures
        res.format@ == contract.format@ && res.origin_product@ == contract.origin@ && res.purpose@
            == contract.purpose@,
        res.workspace_id@ == "workspace:local-demo"@,
        res.privacy_classification@ == "normal"@,
        res.created_by@ == actor@ && res.curation.curated_by@ == actor@,
        res.created_at@ == refs.created_at@ && res.curation.curated_at@ == refs.created_at@,
        res.provenance_ref.timestamp@ == refs.created_at@,
        res.provenance_ref.operation@ == "exported"@,
        res.source_ref.source_type@ == "feed_item"@,
        res.source_ref.opml_feed_count == feeds@.len(),
        res.source_ref.opml_title is Some <==> opml.title is Some,
        opml.title matches Some(title) ==> text::begins_with(
            title@,
            res.source_ref.opml_title->0@,
        ) && (title@.len() <= 300 ==> res.source_ref.opml_title->0@ == title@),
        res.source_ref.first_feed_title is Some <==> feeds@.len() > 0,
        feeds@.len() > 0 ==> text::begins_with(
            feeds@[0].title@,
            res.source_ref.first_feed_title->0@,
        ) && (feeds@[0].title@.len() <= 300 ==> res.source_ref.first_feed_title->0@
            == feeds@[0].title@),
        res.artifact_ref.artifact_type@ == "curated_export"@,
        res.artifact_ref.manifest_ref@ == "manifest:feedmind-local-demo"@,
        res.artifact_ref.hash@ == refs.artifact_hash@,
        res.constraints.data_residency@ == "EU/local-first"@,
        res.constraints.retention_policy_ref@ == "retention:feedmind-local-demo"@,
        !res.constraints.contains_raw_private_content && !res.constraints.contains_secrets
            && !res.constraints.contains_byok_material
            && !res.constraints.allow_downstream_execution,
        res.export_id@ == "export:"@ + refs.item_reference@,
        res.source_ref.source_id@ == "source:"@ + refs.item_reference@,
        res.artifact_ref.artifact_id@ == "artifact:"@ + res.export_id@,
        res.provenance_ref.provenance_id@ == "provenance:"@ + res.export_id@,
        res.source_ref.provenance_id@ == res.provenance_ref.provenance_id@,
        res.item.item_id@ == refs.item_id@ && res.item.content_hash@ == refs.content_hash@
            && res.item.source_url_hash@ == refs.source_url_hash@,
        res.source_ref.content_hash@ == refs.content_hash@,
        res.rule_evidence@.len() == 1,
        res.rule_evidence@[0].rule_id@ == refs.rule_id@ && res.rule_evidence@[0].evidence_hash@
            == refs.evidence_hash@,
{
    if let Some(title) = opml.title {
        lemma_prefix(title@, 300);
    }
    if feeds@.len() > 0 {
        lemma_prefix(feeds@[0].title@, 300);
    }
}

} // verus!
