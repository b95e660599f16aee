//! Places in a list of articles, and the tokens for them.

use vstd::prelude::*;
use vstd::string::*;
use vstd::utf8::encode_utf8;

use crate::calendar;
use crate::codec;
use crate::error;
use crate::error::{ApiError, ApiResult, ErrorKind};
use crate::ids;
use crate::ids::Uuid;
use crate::members;
use crate::members::Member;
use crate::text;
use crate::time;
use crate::time::Timestamp;

verus! {

/// The place of an article in the order of a list: newest first, those without a time last,
/// and among equal ones the higher id first. Neither part of it ever changes, so that a place
/// stays where it is when articles are added.
#[derive(Clone, Copy, Debug, PartialEq, Eq, Structural)]
pub struct ArticleCursor {
    pub published_at: Option<Timestamp>,
    pub id: Uuid,
}

/// The JSON of the time of a place.
pub open spec fn time_json(published_at: Option<Timestamp>) -> Seq<char> {
    match published_at {
        Some(at) => members::quoted(time::rfc3339_exact_text(at)),
        None => "null"@,
    }
}

/// The JSON of the id of a place.
pub open spec fn id_json(id: Uuid) -> Seq<char> {
    members::quoted(ids::hyphenated(id))
}

/// The members of the JSON of a place.
pub open spec fn cursor_members(cursor: ArticleCursor) -> Seq<(Seq<char>, Seq<char>)> {
    seq![("p"@, time_json(cursor.published_at)), ("i"@, id_json(cursor.id))]
}

/// The JSON of a place.
pub open spec fn cursor_json(cursor: ArticleCursor) -> Seq<char> {
    members::object_text(cursor_members(cursor))
}

/// The token for a place: its JSON in URL-safe base64.
pub open spec fn cursor_token(cursor: ArticleCursor) -> Seq<char> {
    codec::url_safe(encode_utf8(cursor_json(cursor)))
}

/// Whether some bytes are a JSON object.
pub uninterp spec fn is_object(json: Seq<u8>) -> bool;

/// The time of a place, or none, that some JSON stands for, where it is one.
pub uninterp spec fn parsed_time(json: Seq<u8>) -> Option<Option<Timestamp>>;

/// The id that some JSON stands for, where it is one.
pub uninterp spec fn parsed_id(json: Seq<u8>) -> Option<Uuid>;

/// The place that a JSON array of a time and an id stands for, where it is one.
pub uninterp spec fn parsed_pair(json: Seq<u8>) -> Option<(Option<Timestamp>, Uuid)>;

/// The place that an object stands for, from what the values of its members `p` and of its
/// members `i` stand for: it has at most one `p` and just one `i`.
pub open spec fn place_read(
    times: Seq<Option<Option<Timestamp>>>,
    ids: Seq<Option<Uuid>>,
) -> Option<(Option<Timestamp>, Uuid)> {
    if times.len() > 1 || ids.len() != 1 {
        None
    } else {
        match (
            if times.len() == 0 {
                Some(None)
            } else {
                times[0]
            },
            ids[0],
        ) {
            (Some(at), Some(id)) => Some((at, id)),
            _ => None,
        }
    }
}

/// The place that some JSON stands for, where it is one: an object with a time `p`, which may be
/// left out, and an id `i`, neither of them twice, whatever else it holds, or an array of both.
pub open spec fn parsed_cursor(json: Seq<u8>) -> Option<(Option<Timestamp>, Uuid)> {
    if is_object(json) {
        let members = members::members_of(json);
        place_read(
            members::values_named(members, "p"@).map_values(|value: Seq<u8>| parsed_time(value)),
            members::values_named(members, "i"@).map_values(|value: Seq<u8>| parsed_id(value)),
        )
    } else {
        parsed_pair(json)
    }
}

/// `serde_json::from_slice` for a map from strings to anything: whether some bytes are a JSON
/// object depends on the bytes alone, and the JSON of a place is one.
#[verifier::external_body]
fn check_object(json: &[u8]) -> (res: bool)
    ensures
        res == is_object(json@),
        forall|cursor: ArticleCursor|
            json@ == encode_utf8(#[trigger] cursor_json(cursor)) && cursor.wf()
                ==> res,
{
    serde_json::from_slice::<std::collections::HashMap<String, serde::de::IgnoredAny>>(json).is_ok()
}

/// `serde_json::from_slice` for a `chrono::DateTime` or null: the time depends on the bytes alone,
/// and reading the JSON of a time gives that time back.
#[verifier::external_body]
fn parse_time(json: &[u8]) -> (res: Option<Option<Timestamp>>)
    ensures
        res == parsed_time(json@),
        forall|published_at: Option<Timestamp>|
            json@ == encode_utf8(#[trigger] time_json(published_at)) && (
            published_at matches Some(at) ==> at.wf()) ==> res == Some(published_at),
        res matches Some(Some(at)) ==> at.wf(),
{
    let at: Option<chrono::DateTime<chrono::Utc>> = serde_json::from_slice(json).ok()?;
    Some(
        at.map(|t| Timestamp { seconds: t.timestamp(), nanos: t.timestamp_subsec_nanos() }),
    )
}

/// `serde_json::from_slice` for a `uuid::Uuid`: the id depends on the bytes alone, and reading
/// the JSON of an id gives that id back.
#[verifier::external_body]
fn parse_id(json: &[u8]) -> (res: Option<Uuid>)
    ensures
        res == parsed_id(json@),
        forall|id: Uuid|
            json@ == encode_utf8(#[trigger] id_json(id)) ==> res == Some(id),
{
    let id: uuid::Uuid = serde_json::from_slice(json).ok()?;
    Some(id.as_u128())
}

/// `serde_json::from_slice` for a pair of a `chrono::DateTime` or null and a `uuid::Uuid`: what
/// comes out depends on the bytes alone.
#[verifier::external_body]
fn parse_pair(json: &[u8]) -> (res: Option<(Option<Timestamp>, Uuid)>)
    ensures
        res == parsed_pair(json@),
        res matches Some((Some(at), _)) ==> at.wf(),
{
    let pair: (Option<chrono::DateTime<chrono::Utc>>, uuid::Uuid) =
        serde_json::from_slice(json).ok()?;
    let at = pair.0.map(
        |t| Timestamp { seconds: t.timestamp(), nanos: t.timestamp_subsec_nanos() },
    );
    Some((at, pair.1.as_u128()))
}

/// The place that an object stands for, from what the values of its members `p` and of its
/// members `i` stand for.
pub fn place_from(times: &Vec<Option<Option<Timestamp>>>, ids: &Vec<Option<Uuid>>) -> (res: Option<
    (Option<Timestamp>, Uuid),
>)
    ensures
        res == place_read(times@, ids@),
{
    if times.len() > 1 || ids.len() != 1 {
        return None;
    }
    let at: Option<Option<Timestamp>> = if times.len() == 0 {
        Some(None)
    } else {
        times[0]
    };
    match (at, ids[0]) {
        (Some(at), Some(id)) => Some((at, id)),
        _ => None,
    }
}

/// Whether some bytes stand for the time of which they are the JSON, where they are that.
spec fn stands_for_its_time(json: Seq<u8>) -> bool {
    forall|published_at: Option<Timestamp>|
        json == encode_utf8(#[trigger] time_json(published_at)) && (published_at matches Some(at)
            ==> at.wf()) ==> parsed_time(json) == Some(published_at)
}

/// Whether some bytes stand for the id of which they are the JSON, where they are that.
spec fn stands_for_its_id(json: Seq<u8>) -> bool {
    forall|id: Uuid| json == encode_utf8(#[trigger] id_json(id)) ==> parsed_id(json) == Some(id)
}

fn parse_times(values: &Vec<Vec<u8>>) -> (res: Vec<Option<Option<Timestamp>>>)
    ensures
        res@ == members::byte_views(values@).map_values(|value: Seq<u8>| parsed_time(value)),
        forall|i: int| 0 <= i < values@.len() ==> stands_for_its_time((#[trigger] values@[i])@),
        forall|i: int|
            0 <= i < res@.len() ==> ((#[trigger] res@[i]) matches Some(Some(at)) ==> at.wf()),
{
    let mut res: Vec<Option<Option<Timestamp>>> = Vec::new();
    while res.len() < values.len()
        invariant
            res@.len() <= values@.len(),
            forall|i: int| 0 <= i < res@.len() ==> #[trigger] res@[i] == parsed_time(values@[i]@),
            forall|i: int| 0 <= i < res@.len() ==> stands_for_its_time((#[trigger] values@[i])@),
            forall|i: int|
                0 <= i < res@.len() ==> ((#[trigger] res@[i]) matches Some(Some(at)) ==> at.wf()),
        decreases values@.len() - res@.len(),
    {
        res.push(parse_time(values[res.len()].as_slice()));
    }
    proof {
        assert(res@ =~= members::byte_views(values@).map_values(
            |value: Seq<u8>| parsed_time(value),
        ));
    }
    res
}

fn parse_ids(values: &Vec<Vec<u8>>) -> (res: Vec<Option<Uuid>>)
    ensures
        res@ == members::byte_views(values@).map_values(|value: Seq<u8>| parsed_id(value)),
        forall|i: int| 0 <= i < values@.len() ==> stands_for_its_id((#[trigger] values@[i])@),
{
    let mut res: Vec<Option<Uuid>> = Vec::new();
    while res.len() < values.len()
        invariant
            res@.len() <= values@.len(),
            forall|i: int| 0 <= i < res@.len() ==> #[trigger] res@[i] == parsed_id(values@[i]@),
            forall|i: int| 0 <= i < res@.len() ==> stands_for_its_id((#[trigger] values@[i])@),
        decreases values@.len() - res@.len(),
    {
        res.push(parse_id(values[res.len()].as_slice()));
    }
    proof {
        assert(res@ =~= members::byte_views(values@).map_values(
            |value: Seq<u8>| parsed_id(value),
        ));
    }
    res
}

fn parse_cursor(json: &[u8]) -> (res: Option<(Option<Timestamp>, Uuid)>)
    ensures
        res == parsed_cursor(json@),
        forall|cursor: ArticleCursor|
            json@ == encode_utf8(#[trigger] cursor_json(cursor)) && cursor.wf() ==> res == Some(
                (cursor.published_at, cursor.id),
            ),
        res matches Some((Some(at), _)) ==> at.wf(),
{
    if !check_object(json) {
        return parse_pair(json);
    }
    let found: Vec<Member> = members::read_members(json);
    let time_values: Vec<Vec<u8>> = members::member_values(&found, "p");
    let id_values: Vec<Vec<u8>> = members::member_values(&found, "i");
    let times: Vec<Option<Option<Timestamp>>> = parse_times(&time_values);
    let ids: Vec<Option<Uuid>> = parse_ids(&id_values);
    proof {
        let all = members::members_of(json@);
        assert forall|cursor: ArticleCursor|
            json@ == encode_utf8(#[trigger] cursor_json(cursor)) && cursor.wf()
                implies place_read(times@, ids@) == Some((cursor.published_at, cursor.id)) by {
            lemma_members_of_cursor(cursor);
            assert(members::stands_for_its_text(all[0].name));
            assert(members::stands_for_its_text(all[1].name));
            lemma_values_of_cursor(cursor);
            assert(members::byte_views(time_values@)[0] == time_values@[0]@);
            assert(members::byte_views(id_values@)[0] == id_values@[0]@);
            assert(stands_for_its_time(time_values@[0]@));
            assert(stands_for_its_id(id_values@[0]@));
            assert(times@[0] == parsed_time(time_values@[0]@));
            assert(ids@[0] == parsed_id(id_values@[0]@));
        }
    }
    place_from(&times, &ids)
}

/// The text of a number consists of printable characters without quotes and backslashes.
proof fn lemma_digits_are_plain(value: int, n: nat)
    ensures
        text::is_plain(time::digits(value, n)),
    decreases n,
{
    if n > 0 {
        lemma_digits_are_plain(value / 10, (n - 1) as nat);
    }
}

proof fn lemma_time_is_plain(at: Timestamp)
    ensures
        text::is_plain(time::rfc3339_exact_text(at)),
{
    let date = calendar::date_of(at);
    let year = date.year as int;
    let size = if year < 0 {
        -year
    } else {
        year
    };
    let nanos = date.nanos as int % 1_000_000_000;
    lemma_digits_are_plain(size, 4);
    text::lemma_decimal_digits(size as nat);
    lemma_digits_are_plain(date.month as int, 2);
    lemma_digits_are_plain(date.day as int, 2);
    lemma_digits_are_plain(date.hour as int, 2);
    lemma_digits_are_plain(date.minute as int, 2);
    lemma_digits_are_plain(time::second_of(date), 2);
    lemma_digits_are_plain(nanos / 1_000_000, 3);
    lemma_digits_are_plain(nanos / 1_000, 6);
    lemma_digits_are_plain(nanos, 9);
    reveal_strlit("-");
    reveal_strlit("+");
    reveal_strlit("T");
    reveal_strlit(":");
    reveal_strlit(".");
    reveal_strlit("Z");
    assert(text::is_plain(time::year_text(year)));
    assert(text::is_plain(time::date_and_time(date)));
    assert(text::is_plain(time::fraction_text(date)));
}

/// The JSON of a place has the members `p` and `i`.
proof fn lemma_members_of_cursor(cursor: ArticleCursor)
    ensures
        members::members_of(encode_utf8(cursor_json(cursor))) == members::written_views(
            cursor_members(cursor),
        ),
{
    let listed = cursor_members(cursor);
    reveal_strlit("p");
    reveal_strlit("i");
    match cursor.published_at {
        Some(at) => {
            lemma_time_is_plain(at);
            members::lemma_plain_string(time::rfc3339_exact_text(at));
            members::lemma_string_is_kept(time::rfc3339_exact_text(at));
        },
        None => {
            reveal_strlit("null");
            members::lemma_inert_is_kept("null"@);
        },
    }
    assert(text::is_plain(ids::hyphenated(cursor.id)));
    members::lemma_plain_string(ids::hyphenated(cursor.id));
    members::lemma_string_is_kept(ids::hyphenated(cursor.id));
    assert(listed[0].0 == "p"@ && listed[1].0 == "i"@);
    members::lemma_members_of_object(listed);
}

/// The JSON of a place has one value of each name, where its names are read.
proof fn lemma_values_of_cursor(cursor: ArticleCursor)
    requires
        members::members_of(encode_utf8(cursor_json(cursor))) == members::written_views(
            cursor_members(cursor),
        ),
        ({
            let all = members::written_views(cursor_members(cursor));
            members::stands_for_its_text(all[0].name) && members::stands_for_its_text(all[1].name)
        }),
    ensures
        ({
            let all = members::members_of(encode_utf8(cursor_json(cursor)));
            &&& members::values_named(all, "p"@) == seq![encode_utf8(
                time_json(cursor.published_at),
            )]
            &&& members::values_named(all, "i"@) == seq![encode_utf8(id_json(cursor.id))]
        }),
{
    let listed = cursor_members(cursor);
    let all = members::written_views(listed);
    reveal_strlit("p");
    reveal_strlit("i");
    assert("p"@[0] != "i"@[0]);
    assert(listed[0].0 == "p"@ && listed[1].0 == "i"@);
    assert(all.take(2) =~= all);
    members::lemma_value_of(listed, 2, 0);
    members::lemma_value_of(listed, 2, 1);
}

/// What is said of a token that stands for no place.
pub open spec fn malformed_cursor() -> Seq<char> {
    "Malformed pagination cursor"@
}

fn append_quoted(res: &mut String, s: &str)
    ensures
        final(res)@ == old(res)@ + members::quoted(s@),
{
    let ghost before = res@;
    res.append("\"");
    res.append(s);
    res.append("\"");
    proof {
        assert(res@ =~= before + members::quoted(s@));
    }
}

impl ArticleCursor {
    /// The time of a place is a point in time.
    pub open spec fn wf(self) -> bool {
        self.published_at matches Some(at) ==> at.wf()
    }

    fn json(&self) -> (res: String)
        requires
            self.wf(),
        ensures
            res@ == cursor_json(*self),
    {
        let mut res: String = "{".to_string();
        append_quoted(&mut res, "p");
        res.append(":");
        match self.published_at {
            Some(at) => append_quoted(&mut res, time::rfc3339_exact(at).as_str()),
            None => res.append("null"),
        }
        res.append(",");
        append_quoted(&mut res, "i");
        res.append(":");
        append_quoted(&mut res, ids::uuid_text(self.id).as_str());
        res.append("}");
        proof {
            let listed = cursor_members(*self);
            assert(listed.drop_last() =~= seq![listed[0]]);
            assert(members::members_text(listed.drop_last()) == members::member_text(listed[0]));
            assert(members::members_text(listed) == members::member_text(listed[0]) + ","@
                + members::member_text(listed[1]));
            assert(res@ =~= cursor_json(*self));
        }
        res
    }

    /// The token for the place. It stands in a query string as it is.
    pub fn encode(&self) -> (res: ApiResult<String>)
        requires
            self.wf(),
        ensures
            res matches Ok(token) && token@ == cursor_token(*self) && forall|i: int|
                0 <= i < token@.len() ==> codec::is_url_safe_char(#[trigger] token@[i]),
    {
        let json: String = self.json();
        Ok(codec::encode_url_safe(json.as_str().as_bytes()))
    }

    /// The place that a token stands for. A token that stands for none is refused, and never
    /// taken for the start of the list. A token made by `encode` stands for the place that it
    /// was made of.
    pub fn decode(raw: &str) -> (res: ApiResult<ArticleCursor>)
        ensures
            match codec::url_safe_decoded(raw@) {
                Some(json) => match parsed_cursor(json) {
                    Some((published_at, id)) => res == Ok::<ArticleCursor, ApiError>(
                        (ArticleCursor { published_at, id }),
                    ),
                    None => error::fails(res, ErrorKind::Validation, malformed_cursor()),
                },
                None => error::fails(res, ErrorKind::Validation, malformed_cursor()),
            },
            forall|cursor: ArticleCursor|
                raw@ == #[trigger] cursor_token(cursor) && cursor.wf() ==> res == Ok::<
                    ArticleCursor,
                    ApiError,
                >(cursor),
            res matches Ok(cursor) ==> cursor.wf(),
    {
        let decoded: Option<Vec<u8>> = codec::decode_url_safe(raw);
        proof {
            assert forall|cursor: ArticleCursor| raw@ == #[trigger] cursor_token(cursor) implies (
            decoded matches Some(b) && b@ == encode_utf8(cursor_json(cursor))) by {
                let json = encode_utf8(cursor_json(cursor));
                assert(raw@ == codec::url_safe(json));
            }
        }
        match decoded {
            Some(json) => match parse_cursor(json.as_slice()) {
                Some((published_at, id)) => Ok(ArticleCursor { published_at, id }),
                None => Err(ApiError::Validation("Malformed pagination cursor".to_string())),
            },
            None => Err(ApiError::Validation("Malformed pagination cursor".to_string())),
        }
    }
}

/// Whether a request has a cursor that stands for a place.
pub open spec fn cursor_of(raw: Seq<char>) -> Option<ArticleCursor> {
    match codec::url_safe_decoded(raw) {
        Some(json) => match parsed_cursor(json) {
            Some((published_at, id)) => Some(ArticleCursor { published_at, id }),
            None => None,
        },
        None => None,
    }
}

/// A token stands for the place that it was made of, and what stands for no place is refused.
pub proof fn token_stands_for_its_place(
    cursor: ArticleCursor,
    token: String,
    raw: &str,
    res: ApiResult<ArticleCursor>,
    other: &str,
    refused: ApiResult<ArticleCursor>,
)
    requires
        cursor.wf(),
        call_ensures(ArticleCursor::encode, (&cursor,), Ok::<String, ApiError>(token)),
        raw@ == token@,
        call_ensures(ArticleCursor::decode, (raw,), res),
        codec::url_safe_decoded(other@) is None || parsed_cursor(
            codec::url_safe_decoded(other@)->0,
        ) is None,
        call_ensures(ArticleCursor::decode, (other,), refused),
    ensures
        res == Ok::<ArticleCursor, ApiError>(cursor),
        refused matches Err(e) && e is Validation,
{
}

/// The token of a place holds its time under `p`, or null there, and its id under `i`.
pub proof fn token_holds_time_and_id(cursor: ArticleCursor)
    ensures
        cursor_json(cursor) == "{\"p\":"@ + (match cursor.published_at {
            Some(at) => "\""@ + time::rfc3339_exact_text(at) + "\""@,
            None => "null"@,
        }) + ",\"i\":\""@ + ids::hyphenated(cursor.id) + "\"}"@,
{
    let listed = cursor_members(cursor);
    assert(listed.drop_last() =~= seq![listed[0]]);
    assert(members::members_text(listed.drop_last()) == members::member_text(listed[0]));
    assert(members::members_text(listed) == members::member_text(listed[0]) + ","@
        + members::member_text(listed[1]));
    reveal_strlit("{");
    reveal_strlit("}");
    reveal_strlit("\"");
    reveal_strlit(":");
    reveal_strlit(",");
    reveal_strlit("p");
    reveal_strlit("i");
    reveal_strlit("{\"p\":");
    reveal_strlit(",\"i\":\"");
    reveal_strlit("\"}");
    assert("{\"p\":"@ =~= "{"@ + members::quoted("p"@) + ":"@);
    assert(",\"i\":\""@ =~= ","@ + members::quoted("i"@) + ":"@ + "\""@);
    assert("\"}"@ =~= "\""@ + "}"@);
    let time = match cursor.published_at {
        Some(at) => "\""@ + time::rfc3339_exact_text(at) + "\""@,
        None => "null"@,
    };
    assert(time_json(cursor.published_at) =~= time);
    assert(cursor_json(cursor) =~= "{\"p\":"@ + time + ",\"i\":\""@ + ids::hyphenated(cursor.id)
        + "\"}"@);
}

/// An object stands for a place if and only if it has just one id that is one, and at most one
/// time, which is one or null.
pub proof fn place_needs_one_id(
    times: Vec<Option<Option<Timestamp>>>,
    ids: Vec<Option<Uuid>>,
    res: Option<(Option<Timestamp>, Uuid)>,
)
    requires
        call_ensures(place_from, (&times, &ids), res),
    ensures
        res is Some <==> ids@.len() == 1 && ids@[0] is Some && (times@.len() == 0 || (times@.len()
            == 1 && times@[0] is Some)),
        res matches Some((at, id)) ==> ids@[0] == Some(id) && (times@.len() == 1 ==> times@[0]
            == Some(at)) && (times@.len() == 0 ==> at is None),
{
}

/// Who sends a token that stands for no place is told that it is malformed.
pub proof fn malformed_token_is_named(raw: &str, res: ApiResult<ArticleCursor>)
    requires
        call_ensures(ArticleCursor::decode, (raw,), res),
    ensures
        res matches Err(e) ==> (e matches ApiError::Validation(m) && m@
            == "Malformed pagination cursor"@),
{
}

} // verus!
