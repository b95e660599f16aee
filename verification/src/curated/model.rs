//! Articles, rules, and what came of holding one against the other.

use vstd::prelude::*;
use vstd::string::*;

use crate::ids::Uuid;
use crate::text;
use crate::time::Timestamp;

verus! {

/// An article of a feed.
#[derive(Debug)]
pub struct Article {
    pub id: Uuid,
    pub feed_id: Uuid,
    pub guid: String,
    pub title: String,
    pub url: Option<String>,
    pub summary: Option<String>,
    pub content: Option<String>,
    pub categories: Vec<String>,
    pub published_at: Option<Timestamp>,
    pub created_at: Timestamp,
}

impl Article {
    /// The times of an article are points in time.
    pub open spec fn wf(self) -> bool {
        &&& self.created_at.wf()
        &&& self.published_at matches Some(at) ==> at.wf()
    }
}

/// A rule as it is written down.
#[derive(Debug)]
pub struct RuleInput {
    pub user_id: Option<Uuid>,
    pub name: String,
    pub pattern: String,
    pub action: String,
    pub feed_id: Option<Uuid>,
    pub priority: Option<i32>,
    pub stop_on_match: Option<bool>,
}

/// A rule that looks for a pattern.
#[derive(Debug)]
pub struct Rule {
    pub user_id: Uuid,
    pub name: String,
    pub pattern: String,
    pub action: String,
    pub feed_id: Option<Uuid>,
    pub priority: i32,
    pub stop_on_match: bool,
}

/// What came of one rule.
#[derive(Clone, Copy, Debug, PartialEq, Eq, Structural)]
pub enum DecisionOutcome {
    Matched,
    NotMatched,
    Skipped,
}

/// A piece of an article that a decision rests on.
#[derive(Debug)]
pub struct Evidence {
    pub field: String,
    pub excerpt: String,
    pub pattern: Option<String>,
}

/// What came of one rule, and why. The confidence is an IEEE 754 number of 32 bits, held
/// by its bits.
#[derive(Debug)]
pub struct Decision {
    pub rule_id: Uuid,
    pub outcome: DecisionOutcome,
    pub actions: Vec<String>,
    pub confidence_bits: u32,
    pub explanation: String,
    pub evidence: Vec<Evidence>,
}

/// What came of holding an article against some rules.
#[derive(Debug)]
pub struct Evaluation {
    pub action: Option<String>,
    pub deciding_rule: Option<String>,
    pub decisions: Vec<Decision>,
}

/// A rule is accepted where its name is not blank and has at most 200 characters, and its
/// pattern has between 1 and 900 characters.
pub open spec fn accepts_rule(input: RuleInput) -> bool {
    &&& text::trimmed(input.name@).len() > 0
    &&& input.name@.len() <= 200
    &&& 0 < input.pattern@.len() <= 900
}

/// Whether a rule that was written down is accepted.
pub fn validate_rule_input(input: &RuleInput) -> (res: Result<(), String>)
    ensures
        res is Ok <==> accepts_rule(*input),
        res matches Err(reason) ==> reason@ == if text::trimmed(input.name@).len() > 0
            && input.name@.len() <= 200 {
            "rule pattern must contain between 1 and 900 characters"@
        } else {
            "rule name must contain between 1 and 200 characters"@
        },
{
    if text::is_blank(input.name.as_str()) || text::char_count(input.name.as_str()) > 200 {
        return Err("rule name must contain between 1 and 200 characters".to_string());
    }
    let pattern_length: usize = text::char_count(input.pattern.as_str());
    if pattern_length == 0 || pattern_length > 900 {
        return Err("rule pattern must contain between 1 and 900 characters".to_string());
    }
    Ok(())
}

/// The rule that was written down. It belongs to `fresh_user` where it names no user.
pub fn build_rule(input: &RuleInput, fresh_user: Uuid) -> (res: Rule)
    ensures
        res.user_id == (match input.user_id {
            Some(id) => id,
            None => fresh_user,
        }),
        res.name@ == input.name@,
        res.pattern@ == input.pattern@,
        res.action@ == input.action@,
        res.feed_id == input.feed_id,
        res.priority == (match input.priority {
            Some(priority) => priority,
            None => 0,
        }),
        res.stop_on_match == (input.stop_on_match == Some(true)),
{
    Rule {
        user_id: match input.user_id {
            Some(id) => id,
            None => fresh_user,
        },
        name: input.name.clone(),
        pattern: input.pattern.clone(),
        action: input.action.clone(),
        feed_id: input.feed_id,
        priority: match input.priority {
            Some(priority) => priority,
            None => 0,
        },
        stop_on_match: match input.stop_on_match {
            Some(stop) => stop,
            None => false,
        },
    }
}

/// The test for a character of an actor reference: an ASCII letter or digit, or one of
/// `-`, `_` and `:`.
pub open spec fn is_reference_char(c: char) -> bool {
    ||| 'a' <= c <= 'z'
    ||| 'A' <= c <= 'Z'
    ||| '0' <= c <= '9'
    ||| c == '-'
    ||| c == '_'
    ||| c == ':'
}

/// An actor reference has between 1 and 64 characters that such a reference can hold.
pub open spec fn accepts_actor(actor: Seq<char>) -> bool {
    &&& 0 < actor.len() <= 64
    &&& forall|i: int| 0 <= i < actor.len() ==> is_reference_char(#[trigger] actor[i])
}

/// Whether a text is a reference to an actor that does not say who they are.
pub fn validate_actor(actor: &str) -> (res: Result<(), String>)
    ensures
        res is Ok <==> accepts_actor(actor@),
        res matches Err(reason) ==> reason@
            == "actor must be a non-PII reference of at most 64 ASCII characters"@,
{
    let refusal: &str = "actor must be a non-PII reference of at most 64 ASCII characters";
    let chars: Vec<char> = text::to_chars(actor);
    if chars.len() == 0 || chars.len() > 64 {
        return Err(refusal.to_string());
    }
    let mut i: usize = 0;
    while i < chars.len()
        invariant
            chars@ == actor@,
            i <= chars@.len(),
            refusal@ == "actor must be a non-PII reference of at most 64 ASCII characters"@,
            forall|j: int| 0 <= j < i ==> is_reference_char(#[trigger] actor@[j]),
        decreases chars@.len() - i,
    {
        let c: char = chars[i];
        let accepted: bool = ('a' <= c && c <= 'z') || ('A' <= c && c <= 'Z') || ('0' <= c && c
            <= '9') || c == '-' || c == '_' || c == ':';
        if !accepted {
            proof {
                assert(!is_reference_char(actor@[i as int]));
            }
            return Err(refusal.to_string());
        }
        i += 1;
    }
    Ok(())
}

/// A reference to an actor that is accepted has at most 64 characters, all of them ASCII,
/// and is no address: it holds no `@`.
pub proof fn accepted_actor_is_no_address(actor: Seq<char>)
    requires
        accepts_actor(actor),
    ensures
        actor.len() <= 64,
        forall|i: int| 0 <= i < actor.len() ==> (#[trigger] actor[i]) as u32 <= 127,
        !actor.contains('@'),
{
    assert forall|i: int| 0 <= i < actor.len() implies (#[trigger] actor[i]) as u32 <= 127
        && actor[i] != '@' by {
        assert(is_reference_char(actor[i]));
    }
}

/// A rule is accepted if and only if its name is not blank and has at most 200 characters and its
/// pattern has from 1 to 900, and a reference to an actor if and only if it has from 1 to 64
/// letters, digits, `-`, `_` and `:` and nothing else.
pub proof fn rules_and_actors_have_bounds(
    input: RuleInput,
    res: Result<(), String>,
    actor: &str,
    named: Result<(), String>,
)
    requires
        call_ensures(validate_rule_input, (&input,), res),
        call_ensures(validate_actor, (actor,), named),
    ensures
        res is Ok <==> text::trimmed(input.name@).len() != 0 && input.name@.len() < 201
            && input.pattern@.len() != 0 && input.pattern@.len() < 901,
        named is Ok <==> 1 <= actor@.len() < 65 && forall|i: int|
            0 <= i < actor@.len() ==> {
                let c = #[trigger] actor@[i];
                ('0' <= c && c <= ':') || ('A' <= c && c <= 'Z') || ('a' <= c && c <= 'z') || c
                    == '-' || c == '_'
            },
{
    if named is Ok {
        assert forall|i: int| 0 <= i < actor@.len() implies {
            let c = #[trigger] actor@[i];
            ('0' <= c && c <= ':') || ('A' <= c && c <= 'Z') || ('a' <= c && c <= 'z') || c == '-'
                || c == '_'
        } by {
            assert(is_reference_char(actor@[i]));
        }
    }
}

/// A rule is what was written down. It belongs to the user that it names, goes to every feed
/// where it names none, and neither has a priority nor stops the others unless that was asked
/// for.
pub proof fn rule_is_what_was_written_down(input: RuleInput, fresh_user: Uuid, res: Rule)
    requires
        call_ensures(build_rule, (&input, fresh_user), res),
    ensures
        input.user_id matches Some(id) ==> res.user_id == id,
        input.user_id is None ==> res.user_id == fresh_user,
        res.name@ == input.name@ && res.pattern@ == input.pattern@ && res.action@ == input.action@,
        res.feed_id == input.feed_id,
        input.priority == Some(res.priority) || (input.priority is None && res.priority == 0),
        res.stop_on_match ==> input.stop_on_match == Some(true),
        !res.stop_on_match ==> input.stop_on_match != Some(true),
{
}

/// A rule that is refused is told whether it is for its name or for its pattern, and a reference
/// to an actor what it must be.
pub proof fn refused_rule_is_told_why(
    input: RuleInput,
    res: Result<(), String>,
    actor: &str,
    named: Result<(), String>,
)
    requires
        call_ensures(validate_rule_input, (&input,), res),
        call_ensures(validate_actor, (actor,), named),
    ensures
        res matches Err(reason) ==> if text::trimmed(input.name@).len() == 0 || input.name@.len()
            > 200 {
            reason@ == "rule name must contain between 1 and 200 characters"@
        } else {
            reason@ == "rule pattern must contain between 1 and 900 characters"@
        },
        named matches Err(reason) ==> reason@
            == "actor must be a non-PII reference of at most 64 ASCII characters"@,
{
}

} // verus!
