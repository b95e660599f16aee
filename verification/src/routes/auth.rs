//! Accounts, passwords and session tokens.

use argon2::password_hash::{PasswordHasher, PasswordVerifier};
use validator::ValidateEmail;
use vstd::prelude::*;
use vstd::string::*;
use vstd::utf8::encode_utf8;

use crate::codec;
use crate::error;
use crate::error::{ApiError, ApiResult, ErrorKind};
use crate::ids;
use crate::ids::Uuid;
use crate::members;
use crate::members::{Member, MemberView};
use crate::routes::common;
use crate::routes::common::Violation;
use crate::text;
use crate::time;
use crate::time::Timestamp;

verus! {

/// What a session token says.
#[derive(Debug)]
pub struct Claims {
    /// The id of the user.
    pub sub: String,
    pub email: String,
    pub tier: String,
    /// When the token expires, in seconds since 1970-01-01T00:00:00 UTC.
    pub exp: i64,
    /// When the token was made, in seconds since 1970-01-01T00:00:00 UTC.
    pub iat: i64,
}

/// What is known of what a session token says.
#[verifier::ext_equal]
pub struct ClaimsView {
    pub sub: Seq<char>,
    pub email: Seq<char>,
    pub tier: Seq<char>,
    pub exp: i64,
    pub iat: i64,
}

impl View for Claims {
    type V = ClaimsView;

    open spec fn view(&self) -> ClaimsView {
        ClaimsView {
            sub: self.sub@,
            email: self.email@,
            tier: self.tier@,
            exp: self.exp,
            iat: self.iat,
        }
    }
}

/// A request for a new account.
#[derive(Debug)]
pub struct RegisterRequest {
    pub email: String,
    pub password: String,
    pub display_name: Option<String>,
}

/// A request for a session.
#[derive(Debug)]
pub struct LoginRequest {
    pub email: String,
    pub password: String,
}

/// The answer to a request for a session.
#[derive(Debug)]
pub struct AuthResponse {
    pub data: AuthData,
}

/// A session.
#[derive(Debug)]
pub struct AuthData {
    pub token: String,
    pub expires_at: String,
    pub user: UserData,
}

/// What a user is told of themselves.
#[derive(Debug)]
pub struct UserData {
    pub id: String,
    pub email: String,
    pub display_name: Option<String>,
    pub tier: String,
}

/// A user, as they are stored.
#[derive(Debug)]
pub struct UserRow {
    pub id: Uuid,
    pub email: String,
    pub password_hash: String,
    pub display_name: Option<String>,
    pub tier: String,
}

/// The kinds of tokens.
#[derive(Debug, Clone, Copy, PartialEq, Eq, Structural)]
pub enum TokenKind {
    JwtSession,
    BiscuitDelegation,
}

impl TokenKind {
    /// Only a delegation token delegates. A session token never does.
    pub fn can_authorize_harness_delegation(self) -> (res: bool)
        ensures
            res == (self == TokenKind::BiscuitDelegation),
    {
        matches!(self, TokenKind::BiscuitDelegation)
    }
}

/// Whether a text is an e-mail address.
pub uninterp spec fn is_email(email: Seq<char>) -> bool;

/// `validator::ValidateEmail::validate_email`: whether a text is an address depends on the
/// text alone.
#[verifier::external_body]
fn valid_email(email: &String) -> (res: bool)
    ensures
        res == is_email(email@),
{
    email.validate_email()
}

/// Whether a password is the one that a hash was made of, where the hash is one.
pub uninterp spec fn password_check(hash: Seq<char>, password: Seq<char>) -> Option<bool>;

/// Whether a password is short enough to be hashed: its length in bytes fits in 32 bits.
pub open spec fn can_be_hashed(password: Seq<char>) -> bool {
    encode_utf8(password).len() <= 0xffff_ffff
}

/// `argon2::Argon2::hash_password` with the default parameters and a new random salt, or the
/// text of its error: every password that is short enough is hashed, and it is the one that its
/// hash was made of. A longer one is called an invalid password. Two hashes of one password
/// differ.
#[verifier::external_body]
fn hash(password: &str) -> (res: Result<String, String>)
    ensures
        can_be_hashed(password@) ==> res is Ok,
        res matches Ok(hash) ==> can_be_hashed(password@) && password_check(hash@, password@)
            == Some(true),
        res matches Err(reason) ==> reason@ == "invalid password"@,
{
    let salt = argon2::password_hash::SaltString::generate(
        &mut argon2::password_hash::rand_core::OsRng,
    );
    let hashed = argon2::Argon2::default().hash_password(password.as_bytes(), &salt);
    hashed.map(|hash| hash.to_string()).map_err(|e| e.to_string())
}

/// `argon2::PasswordHash::new` and `argon2::Argon2::verify_password`: nothing where the hash
/// is none, else whether the password is the one that it was made of. Both depend on hash and
/// password alone.
#[verifier::external_body]
fn check(hash: &str, password: &str) -> (res: Option<bool>)
    ensures
        res == password_check(hash@, password@),
{
    let parsed = argon2::PasswordHash::new(hash).ok()?;
    Some(argon2::Argon2::default().verify_password(password.as_bytes(), &parsed).is_ok())
}

/// The members of the JSON of what a session token says.
pub open spec fn claims_members(claims: ClaimsView) -> Seq<(Seq<char>, Seq<char>)> {
    seq![
        ("sub"@, members::json_string(claims.sub)),
        ("email"@, members::json_string(claims.email)),
        ("tier"@, members::json_string(claims.tier)),
        ("exp"@, text::decimal(claims.exp as int)),
        ("iat"@, text::decimal(claims.iat as int)),
    ]
}

/// The JSON of what a session token says.
pub open spec fn claims_json(claims: ClaimsView) -> Seq<char> {
    members::object_text(claims_members(claims))
}

/// What a session token says stands in it under the usual names, in the usual order.
pub proof fn token_says_its_claims_by_name(claims: ClaimsView)
    ensures
        claims_json(claims) == "{\"sub\":"@ + members::json_string(claims.sub) + ",\"email\":"@
            + members::json_string(claims.email) + ",\"tier\":"@ + members::json_string(
            claims.tier,
        ) + ",\"exp\":"@ + text::decimal(claims.exp as int) + ",\"iat\":"@ + text::decimal(
            claims.iat as int,
        ) + "}"@,
{
    let all = claims_members(claims);
    assert forall|n: int| 1 < n <= 5 implies #[trigger] members::members_text(all.take(n))
        == members::members_text(all.take(n - 1)) + ","@ + members::member_text(
        all[n - 1],
    ) by {
        assert(all.take(n).drop_last() =~= all.take(n - 1));
        assert(all.take(n).last() == all[n - 1]);
    }
    assert(members::members_text(all.take(1)) == members::member_text(all[0]));
    assert(members::members_text(all.take(2)) == members::members_text(all.take(1)) + ","@
        + members::member_text(all[1]));
    assert(members::members_text(all.take(3)) == members::members_text(all.take(2)) + ","@
        + members::member_text(all[2]));
    assert(members::members_text(all.take(4)) == members::members_text(all.take(3)) + ","@
        + members::member_text(all[3]));
    assert(members::members_text(all.take(5)) == members::members_text(all.take(4)) + ","@
        + members::member_text(all[4]));
    assert(all.take(5) =~= all);
    reveal_strlit("{");
    reveal_strlit("}");
    reveal_strlit("\"");
    reveal_strlit(":");
    reveal_strlit(",");
    reveal_strlit("sub");
    reveal_strlit("email");
    reveal_strlit("tier");
    reveal_strlit("exp");
    reveal_strlit("iat");
    reveal_strlit("{\"sub\":");
    reveal_strlit(",\"email\":");
    reveal_strlit(",\"tier\":");
    reveal_strlit(",\"exp\":");
    reveal_strlit(",\"iat\":");
    assert("{\"sub\":"@ =~= "{"@ + members::quoted("sub"@) + ":"@);
    assert(",\"email\":"@ =~= ","@ + members::quoted("email"@) + ":"@);
    assert(",\"tier\":"@ =~= ","@ + members::quoted("tier"@) + ":"@);
    assert(",\"exp\":"@ =~= ","@ + members::quoted("exp"@) + ":"@);
    assert(",\"iat\":"@ =~= ","@ + members::quoted("iat"@) + ":"@);
}

impl Claims {
    fn json(&self) -> (res: String)
        ensures
            res@ == claims_json(self@),
    {
        let mut res: String = "{\"sub\":".to_string();
        res.append(members::json_text(self.sub.as_str()).as_str());
        res.append(",\"email\":");
        res.append(members::json_text(self.email.as_str()).as_str());
        res.append(",\"tier\":");
        res.append(members::json_text(self.tier.as_str()).as_str());
        res.append(",\"exp\":");
        res.append(text::number_to_text(self.exp).as_str());
        res.append(",\"iat\":");
        res.append(text::number_to_text(self.iat).as_str());
        res.append("}");
        proof {
            token_says_its_claims_by_name(self@);
        }
        res
    }
}

/// The number that some JSON stands for, where it is one.
pub uninterp spec fn parsed_number(json: Seq<u8>) -> Option<i64>;

/// `serde_json::from_slice` for an `i64`: the number depends on the bytes alone, and reading a
/// number in decimal notation gives that number back.
#[verifier::external_body]
fn parse_number(json: &[u8]) -> (res: Option<i64>)
    ensures
        res == parsed_number(json@),
        forall|n: i64|
            json@ == encode_utf8(#[trigger] text::decimal(n as int)) ==> res == Some(n),
{
    serde_json::from_slice(json).ok()
}

/// The text of the only member with a name.
pub open spec fn only_text(all: Seq<MemberView>, name: Seq<char>) -> Option<Seq<char>> {
    let values = members::values_named(all, name);
    if values.len() == 1 {
        members::parsed_text(values[0])
    } else {
        None
    }
}

/// The number of the only member with a name.
pub open spec fn only_number(all: Seq<MemberView>, name: Seq<char>) -> Option<i64> {
    let values = members::values_named(all, name);
    if values.len() == 1 {
        parsed_number(values[0])
    } else {
        None
    }
}

/// What the members of an object say, where there is just one of each.
pub open spec fn claims_read(all: Seq<MemberView>) -> Option<ClaimsView> {
    match (
        only_text(all, "sub"@),
        only_text(all, "email"@),
        only_text(all, "tier"@),
        only_number(all, "exp"@),
        only_number(all, "iat"@),
    ) {
        (Some(sub), Some(email), Some(tier), Some(exp), Some(iat)) => Some(
            ClaimsView { sub, email, tier, exp, iat },
        ),
        _ => None,
    }
}

/// What stands between the last two dots of a token.
pub open spec fn payload_of(token: Seq<char>) -> Option<Seq<char>> {
    let parts = text::split(token, '.');
    if parts.len() >= 3 {
        Some(parts[parts.len() - 2])
    } else {
        None
    }
}

/// What a token says, whoever signed it.
pub open spec fn claims_in(token: Seq<char>) -> Option<ClaimsView> {
    match payload_of(token) {
        Some(payload) => match codec::url_safe_decoded(payload) {
            Some(json) => claims_read(members::members_of(json)),
            None => None,
        },
        None => None,
    }
}

/// Whether a token holds the JSON of some claims.
pub open spec fn says(token: Seq<char>, claims: ClaimsView) -> bool {
    payload_of(token) == Some(codec::url_safe(encode_utf8(claims_json(claims))))
}

fn read_text(found: &Vec<Member>, name: &str) -> (res: Option<String>)
    ensures
        text::view_opt(res) == only_text(members::member_views(found@), name@),
        forall|i: int|
            0 <= i < found@.len() ==> members::stands_for_its_text(
                (#[trigger] members::member_views(found@)[i]).name,
            ),
        forall|s: Seq<char>|
            members::values_named(members::member_views(found@), name@) == seq![
                encode_utf8(#[trigger] members::json_string(s)),
            ] ==> text::view_opt(res) == Some(s),
{
    let values: Vec<Vec<u8>> = members::member_values(found, name);
    proof {
        assert(members::byte_views(values@).len() == values@.len());
    }
    if values.len() == 1 {
        proof {
            assert(members::byte_views(values@)[0] == values@[0]@);
        }
        members::parse_text(values[0].as_slice())
    } else {
        None
    }
}

fn read_number(found: &Vec<Member>, name: &str) -> (res: Option<i64>)
    ensures
        res == only_number(members::member_views(found@), name@),
        forall|n: i64|
            members::values_named(members::member_views(found@), name@) == seq![
                encode_utf8(#[trigger] text::decimal(n as int)),
            ] ==> res == Some(n),
{
    let values: Vec<Vec<u8>> = members::member_values(found, name);
    proof {
        assert(members::byte_views(values@).len() == values@.len());
    }
    if values.len() == 1 {
        proof {
            assert(members::byte_views(values@)[0] == values@[0]@);
        }
        parse_number(values[0].as_slice())
    } else {
        None
    }
}

/// What a token says, whoever signed it. A token that holds the JSON of some claims says those.
pub fn read_claims(token: &str) -> (res: Option<Claims>)
    ensures
        match res {
            Some(claims) => claims_in(token@) == Some(claims@),
            None => claims_in(token@) is None,
        },
        forall|claims: ClaimsView|
            #![trigger says(token@, claims)]
            says(token@, claims) ==> res is Some && res->0@ == claims,
{
    let parts: Vec<String> = text::split_on(token, '.');
    proof {
        assert(text::views(parts@).len() == parts@.len());
    }
    if parts.len() < 3 {
        return None;
    }
    let at: usize = parts.len() - 2;
    proof {
        assert(text::views(parts@)[at as int] == parts@[at as int]@);
    }
    let json: Vec<u8> = match codec::decode_url_safe(parts[at].as_str()) {
        Some(json) => json,
        None => {
            return None;
        },
    };
    let found: Vec<Member> = members::read_members(json.as_slice());
    let sub: Option<String> = read_text(&found, "sub");
    let email: Option<String> = read_text(&found, "email");
    let tier: Option<String> = read_text(&found, "tier");
    let exp: Option<i64> = read_number(&found, "exp");
    let iat: Option<i64> = read_number(&found, "iat");
    proof {
        let all = members::member_views(found@);
        assert forall|claims: ClaimsView| #[trigger] says(token@, claims) implies text::view_opt(
            sub,
        ) == Some(claims.sub) && text::view_opt(email) == Some(claims.email) && text::view_opt(
            tier,
        ) == Some(claims.tier) && exp == Some(claims.exp) && iat == Some(claims.iat) by {
            assert(json@ == encode_utf8(claims_json(claims)));
            lemma_members_of_claims(claims);
            assert(all == members::written_views(claims_members(claims)));
            lemma_values_of_claims(claims);
            assert(members::values_named(all, "sub"@) == seq![
                encode_utf8(members::json_string(claims.sub)),
            ]);
            assert(members::values_named(all, "email"@) == seq![
                encode_utf8(members::json_string(claims.email)),
            ]);
            assert(members::values_named(all, "tier"@) == seq![
                encode_utf8(members::json_string(claims.tier)),
            ]);
            assert(members::values_named(all, "exp"@) == seq![
                encode_utf8(text::decimal(claims.exp as int)),
            ]);
            assert(members::values_named(all, "iat"@) == seq![
                encode_utf8(text::decimal(claims.iat as int)),
            ]);
        }
    }
    match (sub, email, tier, exp, iat) {
        (Some(sub), Some(email), Some(tier), Some(exp), Some(iat)) => Some(
            Claims { sub, email, tier, exp, iat },
        ),
        _ => None,
    }
}

proof fn lemma_decimal_is_kept(n: int)
    ensures
        members::is_kept(text::decimal(n)),
{
    let s = text::decimal(n);
    if n < 0 {
        text::lemma_decimal_digits((-n) as nat);
    } else {
        text::lemma_decimal_digits(n as nat);
    }
    members::lemma_inert_is_kept(s);
}

proof fn lemma_claim_names(claims: ClaimsView)
    ensures
        ({
            let all = claims_members(claims);
            &&& forall|i: int| 0 <= i < 5 ==> text::is_plain((#[trigger] all[i]).0)
            &&& forall|i: int, j: int|
                0 <= i < j < 5 ==> (#[trigger] all[i]).0 != (#[trigger] all[j]).0
        }),
{
    reveal_strlit("sub");
    reveal_strlit("email");
    reveal_strlit("tier");
    reveal_strlit("exp");
    reveal_strlit("iat");
    assert("sub"@[0] != "exp"@[0]);
    assert("sub"@[0] != "iat"@[0]);
    assert("exp"@[0] != "iat"@[0]);
    assert("email"@.len() == 5 && "tier"@.len() == 4 && "sub"@.len() == 3);
    assert("exp"@.len() == 3 && "iat"@.len() == 3);
}

proof fn lemma_members_of_claims(claims: ClaimsView)
    ensures
        members::members_of(encode_utf8(claims_json(claims))) == members::written_views(
            claims_members(claims),
        ),
{
    lemma_claim_names(claims);
    members::lemma_string_is_kept(claims.sub);
    members::lemma_string_is_kept(claims.email);
    members::lemma_string_is_kept(claims.tier);
    lemma_decimal_is_kept(claims.exp as int);
    lemma_decimal_is_kept(claims.iat as int);
    members::lemma_members_of_object(claims_members(claims));
}

proof fn lemma_values_of_claims(claims: ClaimsView)
    requires
        forall|i: int|
            0 <= i < 5 ==> members::stands_for_its_text(
                (#[trigger] members::written_views(claims_members(claims))[i]).name,
            ),
    ensures
        forall|k: int|
            0 <= k < 5 ==> members::values_named(
                members::written_views(claims_members(claims)),
                (#[trigger] claims_members(claims)[k]).0,
            ) == seq![encode_utf8(claims_members(claims)[k].1)],
        claims_members(claims)[0] == ("sub"@, members::json_string(claims.sub)),
        claims_members(claims)[1] == ("email"@, members::json_string(claims.email)),
        claims_members(claims)[2] == ("tier"@, members::json_string(claims.tier)),
        claims_members(claims)[3] == ("exp"@, text::decimal(claims.exp as int)),
        claims_members(claims)[4] == ("iat"@, text::decimal(claims.iat as int)),
{
    let listed = claims_members(claims);
    let all = members::written_views(listed);
    lemma_claim_names(claims);
    assert(all.take(5) =~= all);
    assert forall|k: int| 0 <= k < 5 implies members::values_named(
        all,
        (#[trigger] listed[k]).0,
    ) == seq![encode_utf8(listed[k].1)] by {
        members::lemma_value_of(listed, 5, k);
    }
}

/// The signature of a message with a secret: its HMAC with SHA-256 in URL-safe base64.
pub uninterp spec fn signature(message: Seq<char>, secret: Seq<char>) -> Seq<char>;

/// The header of a token that names an algorithm, in URL-safe base64.
pub open spec fn header_for(algorithm: Seq<char>) -> Seq<char> {
    codec::url_safe(
        encode_utf8("{\"typ\":\"JWT\",\"alg\":\""@ + algorithm + "\"}"@),
    )
}

/// What is signed of a session token: its header, and what it says.
pub open spec fn session_message(claims: ClaimsView) -> Seq<char> {
    header_for("HS256"@) + "."@ + codec::url_safe(encode_utf8(claims_json(claims)))
}

/// The token that says something, signed with a secret.
pub open spec fn session_token(claims: ClaimsView, secret: Seq<char>) -> Seq<char> {
    session_message(claims) + "."@ + signature(session_message(claims), secret)
}

/// Whether what stands behind the last dot of a token is the signature of what stands before it.
pub open spec fn is_signed(token: Seq<char>, secret: Seq<char>) -> bool {
    match text::before_last(token, '.') {
        Some(message) => token == message + "."@ + signature(message, secret),
        None => false,
    }
}

/// Whether a text consists of ASCII letters and digits.
pub open spec fn is_word(s: Seq<char>) -> bool {
    forall|i: int|
        0 <= i < s.len() ==> 'a' <= #[trigger] s[i] <= 'z' || 'A' <= s[i] <= 'Z' || '0' <= s[i]
            <= '9'
}

/// Whether a token begins with the header that names an algorithm.
pub open spec fn announces(token: Seq<char>, algorithm: Seq<char>) -> bool {
    text::begins_with(token, header_for(algorithm) + "."@)
}

/// What stands before the last two dots of a token.
pub open spec fn header_of(token: Seq<char>) -> Option<Seq<char>> {
    match text::before_last(token, '.') {
        Some(message) => text::before_last(message, '.'),
        None => None,
    }
}

/// Whether the header of a token names HS256: it has one member `alg`, and no text other than
/// that stands there.
pub open spec fn names_hs256(token: Seq<char>) -> bool {
    match header_of(token) {
        Some(header) => match codec::url_safe_decoded(header) {
            Some(json) => {
                let values = members::values_named(members::members_of(json), "alg"@);
                &&& values.len() == 1
                &&& members::parsed_text(values[0]) matches Some(algorithm) ==> algorithm
                    == "HS256"@
            },
            None => false,
        },
        None => false,
    }
}

/// `jsonwebtoken::encode` with the default header, HS256, for the JSON of some claims as it is,
/// and the text of its error: any secret will do, the token is that JSON behind the header with
/// the signature of both behind it, and none of the three parts holds a dot.
#[verifier::external_body]
fn sign(json: &str, secret: &str) -> (res: Result<String, String>)
    requires
        exists|claims: ClaimsView| json@ == #[trigger] claims_json(claims),
    ensures
        forall|claims: ClaimsView|
            json@ == #[trigger] claims_json(claims) ==> res is Ok && res->Ok_0@ == session_message(
                claims,
            ) + "."@ + signature(session_message(claims), secret@) && is_signed(
                res->Ok_0@,
                secret@,
            ) && says(res->Ok_0@, claims),
{
    let said = serde_json::value::RawValue::from_string(json.to_string());
    let said = said.map_err(|e| e.to_string())?;
    let key = jsonwebtoken::EncodingKey::from_secret(secret.as_bytes());
    jsonwebtoken::encode(&jsonwebtoken::Header::default(), &said, &key).map_err(|e| e.to_string())
}

/// `jsonwebtoken::decode` with the default validation, HS256 and the time of expiry: a token that
/// is accepted has the signature of its message with the secret, and its header names HS256, once
/// and no other algorithm, however the header is written. Whether a token has expired depends on
/// the time of the call, so that nothing is claimed of when one is accepted.
#[verifier::external_body]
fn verify(token: &str, secret: &str) -> (res: bool)
    ensures
        res ==> is_signed(token@, secret@),
        res ==> names_hs256(token@),
        forall|algorithm: Seq<char>| #[trigger]
            announces(token@, algorithm) && is_word(algorithm) && algorithm != "HS256"@ ==> !res,
{
    let key = jsonwebtoken::DecodingKey::from_secret(secret.as_bytes());
    let validation = jsonwebtoken::Validation::default();
    jsonwebtoken::decode::<serde::de::IgnoredAny>(token, &key, &validation).is_ok()
}

/// The fields of a request for an account that are not accepted: an address that is none, and
/// a password with fewer than 8 characters.
pub open spec fn account_violations(has_email: bool, password: Seq<char>) -> Seq<Violation> {
    (if has_email {
        Seq::empty()
    } else {
        seq![Violation::Email]
    }) + (if password.len() >= 8 {
        Seq::empty()
    } else {
        seq![Violation::PasswordLength]
    })
}

/// The fields of a request for an account that are not accepted, from whether its address is
/// one.
pub fn check_account(has_email: bool, password: &str) -> (res: Vec<Violation>)
    ensures
        res@ == account_violations(has_email, password@),
{
    let mut res: Vec<Violation> = Vec::new();
    if !has_email {
        res.push(Violation::Email);
    }
    if text::char_count(password) < 8 {
        res.push(Violation::PasswordLength);
    }
    proof {
        assert(res@ =~= account_violations(has_email, password@));
    }
    res
}

impl RegisterRequest {
    /// The fields that are not accepted: an address that is none, and a password with fewer
    /// than 8 characters.
    pub fn violations(&self) -> (res: Vec<Violation>)
        ensures
            res@ == account_violations(is_email(self.email@), self.password@),
    {
        check_account(valid_email(&self.email), self.password.as_str())
    }

    /// What is stored for the account: the address in lowercase, and a hash of the password.
    pub fn plan(&self) -> (res: ApiResult<(String, String)>)
        ensures
            match res {
                Ok((email, hash)) => email@ == text::lowercase(self.email@) && password_check(
                    hash@,
                    self.password@,
                ) == Some(true),
                Err(e) => e@ == (ErrorKind::Internal, hashing_failed() + "invalid password"@),
            },
            res is Ok <==> can_be_hashed(self.password@),
    {
        account_to_store(self.email.as_str(), hash(self.password.as_str()))
    }
}

/// What the message of a failure to hash a password begins with.
pub open spec fn hashing_failed() -> Seq<char> {
    "Password hashing failed: "@
}

/// What becomes of a hash, from what came of hashing.
pub fn hash_outcome(hashed: Result<String, String>) -> (res: ApiResult<String>)
    ensures
        match hashed {
            Ok(hash) => res == Ok::<String, ApiError>(hash),
            Err(reason) => error::fails(res, ErrorKind::Internal, hashing_failed() + reason@),
        },
{
    match hashed {
        Ok(hash) => Ok(hash),
        Err(reason) => Err(
            ApiError::Internal(common::prefixed("Password hashing failed: ", reason.as_str())),
        ),
    }
}

/// What is stored for an account, from its address and what came of hashing its password: the
/// address in lowercase, and the hash.
pub fn account_to_store(email: &str, hashed: Result<String, String>) -> (res: ApiResult<
    (String, String),
>)
    ensures
        match hashed {
            Ok(hash) => res matches Ok((stored, kept)) && stored@ == text::lowercase(email@)
                && kept == hash,
            Err(reason) => error::fails(res, ErrorKind::Internal, hashing_failed() + reason@),
        },
{
    match hash_outcome(hashed) {
        Ok(hash) => Ok((email.to_lowercase(), hash)),
        Err(e) => Err(e),
    }
}

impl LoginRequest {
    /// The fields that are not accepted: an address that is none.
    pub fn violations(&self) -> (res: Vec<Violation>)
        ensures
            res@ == if is_email(self.email@) {
                Seq::empty()
            } else {
                seq![Violation::Email]
            },
    {
        let mut res: Vec<Violation> = Vec::new();
        if !valid_email(&self.email) {
            res.push(Violation::Email);
        }
        proof {
            assert(res@ =~= if is_email(self.email@) {
                Seq::empty()
            } else {
                seq![Violation::Email]
            });
        }
        res
    }

    /// The address under which the account is stored.
    pub fn stored_email(&self) -> (res: String)
        ensures
            res@ == text::lowercase(self.email@),
    {
        self.email.as_str().to_lowercase()
    }
}

/// A hash of a password, which that password opens.
pub fn hash_password(password: &str) -> (res: ApiResult<String>)
    ensures
        match res {
            Ok(hash) => password_check(hash@, password@) == Some(true),
            Err(e) => e@ == (ErrorKind::Internal, hashing_failed() + "invalid password"@),
        },
        res is Ok <==> can_be_hashed(password@),
{
    hash_outcome(hash(password))
}

/// What becomes of a login, from what came of holding the password against the stored hash.
pub fn login_outcome(checked: Option<bool>) -> (res: ApiResult<()>)
    ensures
        match checked {
            Some(true) => res is Ok,
            Some(false) => error::fails(
                res,
                ErrorKind::Unauthorized,
                "Invalid email or password"@,
            ),
            None => error::fails(res, ErrorKind::Internal, "Invalid password hash format"@),
        },
{
    match checked {
        Some(true) => Ok(()),
        Some(false) => Err(ApiError::Unauthorized("Invalid email or password".to_string())),
        None => Err(ApiError::Internal("Invalid password hash format".to_string())),
    }
}

/// The user who logs in: one who is stored, and whose password it is. An address that is not
/// known and a wrong password are answered alike.
pub fn check_login(user: Option<UserRow>, password: &str) -> (res: ApiResult<UserRow>)
    ensures
        match user {
            Some(row) => match password_check(row.password_hash@, password@) {
                Some(true) => res == Ok::<UserRow, ApiError>(row),
                Some(false) => error::fails(
                    res,
                    ErrorKind::Unauthorized,
                    "Invalid email or password"@,
                ),
                None => error::fails(res, ErrorKind::Internal, "Invalid password hash format"@),
            },
            None => error::fails(res, ErrorKind::Unauthorized, "Invalid email or password"@),
        },
{
    match user {
        Some(row) => {
            let checked: Option<bool> = check(row.password_hash.as_str(), password);
            match login_outcome(checked) {
                Ok(_) => Ok(row),
                Err(e) => Err(e),
            }
        },
        None => Err(ApiError::Unauthorized("Invalid email or password".to_string())),
    }
}

/// Whether a password opens a hash. A wrong password and a hash that is none are answered
/// alike.
pub fn verify_password_hash(password: &str, password_hash: &str) -> (res: Result<(), String>)
    ensures
        res is Ok <==> password_check(password_hash@, password@) == Some(true),
        res matches Err(reason) ==> reason@ == "Invalid email or password"@,
{
    match check(password_hash, password) {
        Some(true) => Ok(()),
        _ => Err("Invalid email or password".to_string()),
    }
}

/// What became of an account that could not be stored: the address is taken where the
/// database says that it is not unique.
pub fn register_failure(database_code: Option<&str>) -> (res: ApiError)
    ensures
        res@ == if database_code is Some && database_code->0@ == "23505"@ {
            (ErrorKind::Conflict, "Email already registered"@)
        } else {
            (ErrorKind::Internal, "Failed to create user"@)
        },
{
    let taken: bool = match database_code {
        Some(code) => text::same(code, "23505"),
        None => false,
    };
    if taken {
        ApiError::Conflict("Email already registered".to_string())
    } else {
        ApiError::Internal("Failed to create user".to_string())
    }
}

/// The user whose session is renewed, unless they are gone.
pub fn require_session_user(user: Option<UserRow>) -> (res: ApiResult<UserRow>)
    ensures
        match user {
            Some(row) => res == Ok::<UserRow, ApiError>(row),
            None => error::fails(res, ErrorKind::Unauthorized, "User not found"@),
        },
{
    match user {
        Some(row) => Ok(row),
        None => Err(ApiError::Unauthorized("User not found".to_string())),
    }
}

/// What a session token says for a user from now on for some seconds.
pub open spec fn claims_for(user: UserRow, now: Timestamp, expiration_secs: u64) -> ClaimsView {
    ClaimsView {
        sub: ids::hyphenated(user.id),
        email: user.email@,
        tier: user.tier@,
        exp: (now.seconds + expiration_secs) as i64,
        iat: now.seconds,
    }
}

/// What a session token says for a user from now on for some seconds.
pub fn session_claims(user: &UserRow, expiration_secs: u64, now: Timestamp) -> (res: Claims)
    requires
        time::has_seconds_after(now, expiration_secs as int),
    ensures
        res@ == claims_for(*user, now, expiration_secs),
{
    let expires_at: Timestamp = time::plus_seconds(now, expiration_secs);
    let res: Claims = Claims {
        sub: ids::uuid_text(user.id),
        email: user.email.clone(),
        tier: user.tier.clone(),
        exp: expires_at.seconds,
        iat: now.seconds,
    };
    proof {
        assert(res@ =~= claims_for(*user, now, expiration_secs));
    }
    res
}

/// A session token for a user, and when it expires.
pub fn generate_jwt(user: &UserRow, secret: &str, expiration_secs: u64, now: Timestamp) -> (res:
    ApiResult<(String, Timestamp)>)
    requires
        time::has_seconds_after(now, expiration_secs as int),
    ensures
        ({
            let claims = claims_for(*user, now, expiration_secs);
            &&& res matches Ok((token, expires_at))
            &&& token@ == session_token(claims, secret@)
            &&& is_signed(token@, secret@)
            &&& says(token@, claims)
            &&& expires_at == time::seconds_after(now, expiration_secs as int)
            &&& expires_at.ordinary()
        }),
{
    let expires_at: Timestamp = time::plus_seconds(now, expiration_secs);
    let claims: Claims = session_claims(user, expiration_secs, now);
    let json: String = claims.json();
    match sign(json.as_str(), secret) {
        Ok(token) => Ok((token, expires_at)),
        Err(reason) => Err(
            ApiError::Internal(common::prefixed("JWT encoding failed: ", reason.as_str())),
        ),
    }
}

/// What becomes of a session, from what came of verifying its token.
pub fn session_outcome(verified: Option<Claims>) -> (res: ApiResult<Claims>)
    ensures
        match verified {
            Some(claims) => res == Ok::<Claims, ApiError>(claims),
            None => error::fails(res, ErrorKind::Unauthorized, "Invalid or expired token"@),
        },
{
    match verified {
        Some(claims) => Ok(claims),
        None => Err(ApiError::Unauthorized("Invalid or expired token".to_string())),
    }
}

/// What a session token says. A token that was not signed with the secret, or that was signed
/// in another way, is refused. One that has expired is refused too; whether it has depends on
/// the time of the call.
pub fn decode_session_claims(token: &str, secret: &str) -> (res: ApiResult<Claims>)
    ensures
        match res {
            Ok(claims) => is_signed(token@, secret@) && claims_in(token@) == Some(claims@),
            Err(e) => e@ == (ErrorKind::Unauthorized, "Invalid or expired token"@),
        },
        claims_in(token@) is None ==> res is Err,
        !is_signed(token@, secret@) ==> res is Err,
        !names_hs256(token@) ==> res is Err,
        forall|algorithm: Seq<char>|
            #![trigger announces(token@, algorithm)]
            announces(token@, algorithm) && is_word(algorithm) && algorithm != "HS256"@
                ==> res is Err,
        forall|claims: ClaimsView|
            #![trigger says(token@, claims)]
            says(token@, claims) && res is Ok ==> res->Ok_0@ == claims,
{
    if verify(token, secret) {
        session_outcome(read_claims(token))
    } else {
        session_outcome(None)
    }
}

proof fn lemma_before_last_dot(message: Seq<char>, rest: Seq<char>)
    requires
        !rest.contains('.'),
    ensures
        text::before_last(message + "."@ + rest, '.') == Some(message),
    decreases rest.len(),
{
    reveal_strlit(".");
    let all = message + "."@ + rest;
    if rest.len() == 0 {
        assert(all.last() == '.');
        assert(all.drop_last() =~= message);
    } else {
        let shorter = rest.drop_last();
        assert(all.last() == rest.last());
        assert(rest[rest.len() - 1] != '.');
        assert forall|i: int| 0 <= i < shorter.len() implies shorter[i] != '.' by {
            assert(shorter[i] == rest[i]);
        }
        lemma_before_last_dot(message, shorter);
        assert(all.drop_last() =~= message + "."@ + shorter);
    }
}

/// A message is signed by its own signature alone: with other characters behind it, and so with
/// the signature that another message or another secret gave, it is refused unless they are the
/// signature of this message with this secret.
pub proof fn message_needs_its_own_signature(
    message: Seq<char>,
    behind: Seq<char>,
    secret: Seq<char>,
)
    requires
        !behind.contains('.'),
    ensures
        is_signed(message + "."@ + behind, secret) <==> behind == signature(message, secret),
{
    lemma_before_last_dot(message, behind);
    reveal_strlit(".");
    let token = message + "."@ + behind;
    let signed = message + "."@ + signature(message, secret);
    let at = message.len() as int + 1;
    assert(token.skip(at) =~= behind);
    assert(signed.skip(at) =~= signature(message, secret));
}


/// What a user is told of themselves.
pub fn user_data(user: UserRow) -> (res: UserData)
    ensures
        res.id@ == ids::hyphenated(user.id),
        res.email@ == user.email@,
        res.display_name == user.display_name,
        res.tier@ == user.tier@,
{
    UserData {
        id: ids::uuid_text(user.id),
        email: user.email,
        display_name: user.display_name,
        tier: user.tier,
    }
}

/// The answer with a new session. The password hash stays out of it.
pub fn auth_response(user: UserRow, token: String, expires_at: Timestamp) -> (res: AuthResponse)
    requires
        expires_at.wf(),
    ensures
        res.data.token@ == token@,
        res.data.expires_at@ == time::rfc3339_offset_text(expires_at),
        res.data.user.id@ == ids::hyphenated(user.id),
        res.data.user.email@ == user.email@,
        res.data.user.display_name == user.display_name,
        res.data.user.tier@ == user.tier@,
{
    AuthResponse {
        data: AuthData {
            token,
            expires_at: time::rfc3339_offset(expires_at),
            user: user_data(user),
        },
    }
}

/// A session token expires as many seconds after it was made as was asked for.
pub proof fn session_lasts_as_long_as_asked(user: UserRow, now: Timestamp, expiration_secs: u64)
    requires
        time::has_seconds_after(now, expiration_secs as int),
    ensures
        claims_for(user, now, expiration_secs).exp - claims_for(user, now, expiration_secs).iat
            == expiration_secs,
        expiration_secs > 0 ==> claims_for(user, now, expiration_secs).exp > claims_for(
            user,
            now,
            expiration_secs,
        ).iat,
{
}

/// An account is accepted if and only if its address is one and its password has 8 characters
/// or more, and each of the two is complained of by itself. A login needs an address alone.
pub proof fn account_is_accepted_where_all_is_well(
    request: RegisterRequest,
    res: Vec<Violation>,
    login: LoginRequest,
    refused: Vec<Violation>,
)
    requires
        call_ensures(RegisterRequest::violations, (&request,), res),
        call_ensures(LoginRequest::violations, (&login,), refused),
    ensures
        res@.len() == 0 <==> is_email(request.email@) && request.password@.len() > 7,
        res@.contains(Violation::Email) <==> !is_email(request.email@),
        res@.contains(Violation::PasswordLength) <==> request.password@.len() < 8,
        refused@.len() == 0 <==> is_email(login.email@),
        refused@.contains(Violation::Email) <==> !is_email(login.email@),
{
    if !is_email(request.email@) {
        assert(res@[0] == Violation::Email);
    }
    if request.password@.len() < 8 {
        assert(res@[res@.len() - 1] == Violation::PasswordLength);
    }
    if !is_email(login.email@) {
        assert(refused@[0] == Violation::Email);
    }
}

/// Who has registered can log in, in whatever case they write the address: the account is found
/// under the address that it was stored under, and the password opens it.
pub proof fn registered_user_can_log_in(
    request: RegisterRequest,
    email: String,
    hash: String,
    login: LoginRequest,
    asked: String,
    row: UserRow,
    password: &str,
    res: ApiResult<UserRow>,
    kept: &str,
    opened: Result<(), String>,
)
    requires
        call_ensures(
            RegisterRequest::plan,
            (&request,),
            Ok::<(String, String), ApiError>((email, hash)),
        ),
        text::lowercase(login.email@) == text::lowercase(request.email@),
        call_ensures(LoginRequest::stored_email, (&login,), asked),
        row.email@ == email@,
        row.password_hash@ == hash@,
        password@ == request.password@,
        call_ensures(check_login, (Some(row), password), res),
        kept@ == hash@,
        call_ensures(verify_password_hash, (password, kept), opened),
    ensures
        asked@ == row.email@,
        res == Ok::<UserRow, ApiError>(row),
        opened is Ok,
{
}

/// Only the password that a hash was made of opens an account, and who has none is told the same
/// as who has the wrong password.
pub proof fn only_the_password_opens(
    row: UserRow,
    password: &str,
    res: ApiResult<UserRow>,
    nobody: ApiResult<UserRow>,
    kept: &str,
    opened: Result<(), String>,
)
    requires
        call_ensures(check_login, (Some(row), password), res),
        call_ensures(check_login, (None, password), nobody),
        kept@ == row.password_hash@,
        call_ensures(verify_password_hash, (password, kept), opened),
    ensures
        res is Ok <==> password_check(row.password_hash@, password@) == Some(true),
        res matches Ok(found) ==> found == row,
        opened is Ok <==> res is Ok,
        nobody is Err,
        nobody->Err_0@.0 == ErrorKind::Unauthorized,
        password_check(row.password_hash@, password@) == Some(false) ==> res is Err
            && res->Err_0@ == nobody->Err_0@,
        password_check(row.password_hash@, password@) is None ==> res is Err && res->Err_0@.0
            == ErrorKind::Internal,
{
}

/// The token of a session says who it was made for, from when on and for how long, and the
/// answer tells the same and nothing of the password.
pub proof fn session_is_that_of_its_user(
    user: UserRow,
    secret: &str,
    expiration_secs: u64,
    now: Timestamp,
    token: String,
    expires_at: Timestamp,
    told: AuthResponse,
)
    requires
        now.ordinary(),
        time::has_seconds_after(now, expiration_secs as int),
        call_ensures(
            generate_jwt,
            (&user, secret, expiration_secs, now),
            Ok::<(String, Timestamp), ApiError>((token, expires_at)),
        ),
        call_ensures(auth_response, (user, token, expires_at), told),
    ensures
        ({
            let claims = ClaimsView {
                sub: ids::hyphenated(user.id),
                email: user.email@,
                tier: user.tier@,
                exp: (now.seconds + expiration_secs) as i64,
                iat: now.seconds,
            };
            says(token@, claims) && token@ == session_token(claims, secret@)
        }),
        is_signed(token@, secret@),
        expires_at.seconds == now.seconds + expiration_secs,
        expires_at.nanos == now.nanos,
        told.data.token@ == token@,
        told.data.expires_at@ == time::rfc3339_offset_text(expires_at),
        told.data.user.id@ == ids::hyphenated(user.id),
        told.data.user.email@ == user.email@,
        told.data.user.display_name == user.display_name,
        told.data.user.tier@ == user.tier@,
{
}

/// The address is taken where the database says that it is not unique, and no other failure is
/// called that.
pub proof fn taken_address_is_a_conflict(
    code: &str,
    res: ApiError,
    other: ApiError,
    kind: TokenKind,
    delegates: bool,
)
    requires
        call_ensures(register_failure, (Some(code),), res),
        call_ensures(register_failure, (None,), other),
        call_ensures(TokenKind::can_authorize_harness_delegation, (kind,), delegates),
    ensures
        res@.0 == ErrorKind::Conflict <==> code@ == "23505"@,
        res@.0 == ErrorKind::Internal <==> code@ != "23505"@,
        other@.0 == ErrorKind::Internal,
        delegates <==> kind != TokenKind::JwtSession,
{
}

/// What stands between the last two dots of a token is what it says, whatever stands before, as
/// long as neither that nor what stands behind it holds a dot.
pub proof fn payload_stands_between_the_last_dots(
    header: Seq<char>,
    payload: Seq<char>,
    behind: Seq<char>,
)
    requires
        !payload.contains('.'),
        !behind.contains('.'),
    ensures
        payload_of(header + "."@ + payload + "."@ + behind) == Some(payload),
        header_of(header + "."@ + payload + "."@ + behind) == Some(header),
{
    let message = header + "."@ + payload;
    let token = message + "."@ + behind;
    lemma_before_last_dot(message, behind);
    lemma_before_last_dot(header, payload);
    text::lemma_before_last(token, '.');
    text::lemma_before_last(message, '.');
    let parts = text::split(token, '.');
    let inner = text::split(message, '.');
    assert(inner == parts.drop_last());
    assert(parts[parts.len() - 2] == inner.last());
    lemma_last_piece(header, payload);
    assert(header + "."@ + payload == message);
}

proof fn lemma_last_piece(head: Seq<char>, tail: Seq<char>)
    requires
        !tail.contains('.'),
    ensures
        text::split(head + "."@ + tail, '.').len() > 0,
        text::split(head + "."@ + tail, '.').last() == tail,
    decreases tail.len(),
{
    reveal_strlit(".");
    let all = head + "."@ + tail;
    text::lemma_joined_split(all.drop_last(), '.');
    if tail.len() == 0 {
        assert(all.last() == '.');
        assert(text::split(all, '.').last() =~= tail);
    } else {
        let shorter = tail.drop_last();
        assert(all.last() == tail.last());
        assert(tail[tail.len() - 1] != '.');
        assert forall|i: int| 0 <= i < shorter.len() implies shorter[i] != '.' by {
            assert(shorter[i] == tail[i]);
        }
        lemma_last_piece(head, shorter);
        assert(all.drop_last() =~= head + "."@ + shorter);
        assert(text::split(all, '.').last() =~= tail);
    }
}

/// A session is that of the claims in its token, where the token was signed with the secret and
/// names the algorithm, and every other token is refused in the same way.
pub proof fn session_needs_a_signed_token(
    token: &str,
    secret: &str,
    res: ApiResult<Claims>,
    read: Option<Claims>,
    claims: Claims,
    accepted: ApiResult<Claims>,
    refused: ApiResult<Claims>,
)
    requires
        call_ensures(decode_session_claims, (token, secret), res),
        call_ensures(read_claims, (token,), read),
        call_ensures(session_outcome, (Some(claims),), accepted),
        call_ensures(session_outcome, (None,), refused),
    ensures
        res matches Ok(said) ==> {
            &&& is_signed(token@, secret@)
            &&& names_hs256(token@)
            &&& read is Some
            &&& said.sub@ == read->0.sub@ && said.email@ == read->0.email@ && said.tier@
                == read->0.tier@ && said.exp == read->0.exp && said.iat == read->0.iat
        },
        !is_signed(token@, secret@) ==> res is Err,
        read is None ==> res is Err,
        res matches Err(e) ==> (e matches ApiError::Unauthorized(message) && message@
            == "Invalid or expired token"@),
        accepted == Ok::<Claims, ApiError>(claims),
        refused matches Err(e) && e is Unauthorized,
{
    if let Ok(said) = res {
        assert(said@ == read->0@);
    }
}

/// A token that holds the JSON of some claims says just those.
pub proof fn token_says_what_was_written(token: &str, claims: ClaimsView, read: Option<Claims>)
    requires
        says(token@, claims),
        call_ensures(read_claims, (token,), read),
    ensures
        read is Some,
        read->0.sub@ == claims.sub && read->0.email@ == claims.email && read->0.tier@
            == claims.tier && read->0.exp == claims.exp && read->0.iat == claims.iat,
{
    assert(read->0@ == claims);
}

/// An account is stored under its address in lowercase with the hash of its password, a login
/// comes of the check of the password alone, and a user who is gone has no session.
pub proof fn accounts_are_stored_and_opened(
    email: &str,
    hash: String,
    stored: ApiResult<(String, String)>,
    reason: String,
    failed: ApiResult<(String, String)>,
    opened: ApiResult<()>,
    refused: ApiResult<()>,
    broken: ApiResult<()>,
    user: Option<UserRow>,
    renewed: ApiResult<UserRow>,
    has_email: bool,
    password: &str,
    violations: Vec<Violation>,
    hashed: ApiResult<String>,
)
    requires
        call_ensures(account_to_store, (email, Ok(hash)), stored),
        call_ensures(account_to_store, (email, Err(reason)), failed),
        call_ensures(login_outcome, (Some(true),), opened),
        call_ensures(login_outcome, (Some(false),), refused),
        call_ensures(login_outcome, (None,), broken),
        call_ensures(require_session_user, (user,), renewed),
        call_ensures(check_account, (has_email, password), violations),
        call_ensures(hash_password, (password,), hashed),
    ensures
        stored matches Ok((kept, secret)) && kept@ == text::lowercase(email@) && secret@ == hash@,
        failed matches Err(e) && (e matches ApiError::Internal(message) && message@
            == "Password hashing failed: "@ + reason@),
        opened is Ok,
        refused matches Err(e) && e is Unauthorized,
        broken matches Err(e) && e is Internal,
        renewed is Ok <==> user is Some,
        renewed matches Ok(row) ==> user == Some(row),
        renewed matches Err(e) ==> e is Unauthorized,
        violations@.len() == 0 <==> has_email && password@.len() > 7,
        hashed matches Ok(made) ==> password_check(made@, password@) == Some(true),
        hashed is Ok <==> can_be_hashed(password@),
        hashed matches Err(e) ==> e is Internal,
{
}

/// What a session token says of a user is what is stored of them, and what they are told of
/// themselves is that too.
pub proof fn users_are_told_what_is_stored(
    user: UserRow,
    expiration_secs: u64,
    now: Timestamp,
    claims: Claims,
    told: UserData,
)
    requires
        now.ordinary(),
        time::has_seconds_after(now, expiration_secs as int),
        call_ensures(session_claims, (&user, expiration_secs, now), claims),
        call_ensures(user_data, (user,), told),
    ensures
        claims.sub@ == ids::hyphenated(user.id) && told.id@ == claims.sub@,
        claims.email@ == user.email@ && told.email@ == user.email@,
        claims.tier@ == user.tier@ && told.tier@ == user.tier@,
        told.display_name == user.display_name,
        claims.iat == now.seconds,
        claims.exp == now.seconds + expiration_secs,
{
    assert(claims@ == claims_for(user, now, expiration_secs));
}

/// What went wrong with an account is said in one way for each: a wrong password and an unknown
/// address are not told apart, and neither is anything said of the hash.
pub proof fn account_failures_are_said_alike(
    refused: ApiResult<()>,
    broken: ApiResult<()>,
    nobody: ApiResult<UserRow>,
    password: &str,
    kept: &str,
    opened: Result<(), String>,
    code: Option<&str>,
    failed: ApiError,
    gone: ApiResult<UserRow>,
    request: RegisterRequest,
    plan: ApiResult<(String, String)>,
    hashed: ApiResult<String>,
)
    requires
        call_ensures(login_outcome, (Some(false),), refused),
        call_ensures(login_outcome, (None,), broken),
        call_ensures(check_login, (None, password), nobody),
        call_ensures(verify_password_hash, (password, kept), opened),
        call_ensures(register_failure, (code,), failed),
        call_ensures(require_session_user, (None,), gone),
        call_ensures(RegisterRequest::plan, (&request,), plan),
        call_ensures(hash_password, (password,), hashed),
    ensures
        refused matches Err(e) && (e matches ApiError::Unauthorized(m) && m@
            == "Invalid email or password"@),
        broken matches Err(e) && (e matches ApiError::Internal(m) && m@
            == "Invalid password hash format"@),
        nobody matches Err(e) && (e matches ApiError::Unauthorized(m) && m@
            == "Invalid email or password"@),
        opened matches Err(reason) ==> reason@ == "Invalid email or password"@,
        failed matches ApiError::Conflict(m) ==> m@ == "Email already registered"@,
        failed matches ApiError::Internal(m) ==> m@ == "Failed to create user"@,
        gone matches Err(e) && (e matches ApiError::Unauthorized(m) && m@ == "User not found"@),
        plan matches Err(e) ==> (e matches ApiError::Internal(m) && m@
            == "Password hashing failed: "@ + "invalid password"@),
        hashed matches Err(e) ==> (e matches ApiError::Internal(m) && m@
            == "Password hashing failed: "@ + "invalid password"@),
{
}

/// What is signed of a session begins with the header that names the algorithm, and a header that
/// is accepted names that one alone.
pub proof fn session_names_its_algorithm(claims: ClaimsView, token: Seq<char>, json: Seq<u8>)
    requires
        header_of(token) is Some,
        codec::url_safe_decoded(header_of(token)->0) == Some(json),
    ensures
        session_message(claims) == codec::url_safe(
            encode_utf8("{\"typ\":\"JWT\",\"alg\":\""@ + "HS256"@ + "\"}"@),
        ) + "."@ + codec::url_safe(encode_utf8(claims_json(claims))),
        names_hs256(token) <==> {
            let values = members::values_named(members::members_of(json), "alg"@);
            values.len() == 1 && (members::parsed_text(values[0]) is Some ==> members::parsed_text(
                values[0],
            )->0 == "HS256"@)
        },
{
}

} // verus!
