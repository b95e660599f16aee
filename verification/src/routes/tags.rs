//! Tags of a user.

use vstd::prelude::*;
use vstd::string::*;

use crate::error;
use crate::error::{ApiError, ApiResult, ErrorKind};
use crate::ids::Uuid;
use crate::pattern;
use crate::pattern::Pattern;
use crate::routes::common;

verus! {

/// A request for a new tag.
#[derive(Debug)]
pub struct CreateTagRequest {
    pub name: String,
    pub color: Option<String>,
}

/// A request to change a tag. What is missing stays as it is.
#[derive(Debug)]
pub struct UpdateTagRequest {
    pub name: Option<String>,
    pub color: Option<String>,
}

/// A request to put a tag on an article.
#[derive(Clone, Copy, Debug, PartialEq, Eq, Structural)]
pub struct AddTagRequest {
    pub tag_id: Uuid,
}

/// What goes with a list of tags.
#[derive(Clone, Copy, Debug, PartialEq, Eq, Structural)]
pub struct ListMeta {
    pub total: i64,
}

/// What goes with a list of some tags.
pub fn list_meta(count: usize) -> (res: ListMeta)
    ensures
        res.total == count as i64,
{
    ListMeta {
        total:
            #[verifier::truncate]
            (count as i64),
    }
}

/// The regular expression of colors.
pub fn hex_color_regex() -> (res: Pattern)
    ensures
        res@ == ("^#[0-9A-Fa-f]{6}$"@, false),
{
    match pattern::compile("^#[0-9A-Fa-f]{6}$", false) {
        Ok(compiled) => compiled,
        Err(_) => vstd::pervasive::unreached(),
    }
}

/// What is said of a color that is none.
pub open spec fn bad_color() -> Seq<char> {
    "Invalid hex color format. Use #RRGGBB format (e.g., #FF5733)"@
}

/// A color is `#` and six hexadecimal digits.
pub fn validate_color(color: Option<&String>) -> (res: ApiResult<()>)
    ensures
        match color {
            Some(c) => if pattern::is_hex_color(c@) {
                res is Ok
            } else {
                error::fails(res, ErrorKind::Validation, bad_color())
            },
            None => res is Ok,
        },
{
    if let Some(c) = color {
        let compiled: Pattern = hex_color_regex();
        if pattern::find(&compiled, c.as_str()).is_none() {
            return Err(
                ApiError::Validation(
                    "Invalid hex color format. Use #RRGGBB format (e.g., #FF5733)".to_string(),
                ),
            );
        }
    }
    Ok(())
}

impl CreateTagRequest {
    /// The name has between 1 and 100 characters.
    pub fn has_valid_name(&self) -> (res: bool)
        ensures
            res == common::within(self.name@, 1, 100),
    {
        common::is_within(self.name.as_str(), 1, 100)
    }
}

impl UpdateTagRequest {
    /// A new name has between 1 and 100 characters.
    pub fn has_valid_name(&self) -> (res: bool)
        ensures
            res == (self.name matches Some(name) ==> common::within(name@, 1, 100)),
    {
        match &self.name {
            Some(name) => common::is_within(name.as_str(), 1, 100),
            None => true,
        }
    }

    /// Whether the tag can be changed: it must exist, and its new name must not be that of
    /// another tag. Without a new name nobody asks whether it is taken.
    pub fn check(&self, exists: bool, name_taken: bool) -> (res: ApiResult<()>)
        ensures
            !exists ==> error::fails(res, ErrorKind::NotFound, "Tag not found"@),
            exists && self.name is Some && name_taken ==> error::fails(
                res,
                ErrorKind::Conflict,
                "A tag with this name already exists"@,
            ),
            exists && !(self.name is Some && name_taken) ==> res is Ok,
    {
        if !exists {
            return Err(ApiError::NotFound("Tag not found".to_string()));
        }
        common::require_unique(
            self.name.is_some() && name_taken,
            "A tag with this name already exists",
        )
    }
}

/// Whether a tag can be put on an article: the user must have both.
pub fn check_tagging(article_exists: bool, tag_exists: bool) -> (res: ApiResult<()>)
    ensures
        !article_exists ==> error::fails(res, ErrorKind::NotFound, "Article not found"@),
        article_exists && !tag_exists ==> error::fails(
            res,
            ErrorKind::NotFound,
            "Tag not found"@,
        ),
        article_exists && tag_exists ==> res is Ok,
{
    if !article_exists {
        return Err(ApiError::NotFound("Article not found".to_string()));
    }
    common::require_exists(tag_exists, "Tag not found")
}

/// Whether a tag was taken from an article: the user must have the article, and the tag must
/// have been on it.
pub fn check_untagging(article_exists: bool, removed: u64) -> (res: ApiResult<()>)
    ensures
        !article_exists ==> error::fails(res, ErrorKind::NotFound, "Article not found"@),
        article_exists && removed == 0 ==> error::fails(
            res,
            ErrorKind::NotFound,
            "Tag not associated with article"@,
        ),
        article_exists && removed > 0 ==> res is Ok,
{
    if !article_exists {
        return Err(ApiError::NotFound("Article not found".to_string()));
    }
    common::require_affected(removed, "Tag not associated with article")
}

/// A color is accepted if and only if it is `#` and six hexadecimal digits, and no color is as
/// good as one.
pub proof fn only_colors_are_accepted(color: String, res: ApiResult<()>, none: ApiResult<()>)
    requires
        call_ensures(validate_color, (Some(&color),), res),
        call_ensures(validate_color, (None,), none),
    ensures
        none is Ok,
        res is Ok <==> color@.len() == 7 && color@[0] == '#' && forall|i: int|
            1 <= i < 7 ==> {
                let c = #[trigger] color@[i];
                ('0' <= c && c <= '9') || ('a' <= c && c <= 'f') || ('A' <= c && c <= 'F')
            },
        res matches Err(e) ==> e@.0 == ErrorKind::Validation,
{
}

/// A tag is changed if and only if it is there and its new name, where it gets one, is free, and
/// has from 1 to 100 characters as every tag has.
pub proof fn tag_is_changed_where_its_name_is_free(
    request: UpdateTagRequest,
    exists: bool,
    name_taken: bool,
    res: ApiResult<()>,
    valid: bool,
    created: CreateTagRequest,
    create: bool,
)
    requires
        call_ensures(UpdateTagRequest::check, (&request, exists, name_taken), res),
        call_ensures(UpdateTagRequest::has_valid_name, (&request,), valid),
        call_ensures(CreateTagRequest::has_valid_name, (&created,), create),
    ensures
        res is Ok <==> exists && (request.name is None || !name_taken),
        res matches Err(e) ==> e@.0 == (if exists {
            ErrorKind::Conflict
        } else {
            ErrorKind::NotFound
        }),
        request.name is None ==> valid,
        request.name matches Some(name) ==> (valid <==> 0 < name@.len() < 101),
        create <==> 0 < created.name@.len() < 101,
{
}

/// A tag is put on an article where the user has both, and was taken from one where the user has
/// the article and the tag was on it.
pub proof fn tagging_needs_article_and_tag(
    article_exists: bool,
    tag_exists: bool,
    put: ApiResult<()>,
    removed: u64,
    taken: ApiResult<()>,
)
    requires
        call_ensures(check_tagging, (article_exists, tag_exists), put),
        call_ensures(check_untagging, (article_exists, removed), taken),
    ensures
        put is Ok <==> article_exists && tag_exists,
        put matches Err(e) ==> e@.0 == ErrorKind::NotFound,
        taken is Ok <==> article_exists && removed != 0,
        taken matches Err(e) ==> e@.0 == ErrorKind::NotFound,
{
}

/// What a color is tested with is the pattern of colors, in which case counts.
pub proof fn colors_have_their_pattern(res: Pattern)
    requires
        call_ensures(hex_color_regex, (), res),
    ensures
        res@.0 == "^#[0-9A-Fa-f]{6}$"@ && !res@.1,
{
}

/// What is wrong with a tag is said: its color, its name, or what is not there.
pub proof fn refused_tag_is_told_why(
    color: String,
    colored: ApiResult<()>,
    request: UpdateTagRequest,
    absent: ApiResult<()>,
    taken: ApiResult<()>,
    article_exists: bool,
    put: ApiResult<()>,
    untagged: ApiResult<()>,
)
    requires
        call_ensures(validate_color, (Some(&color),), colored),
        call_ensures(UpdateTagRequest::check, (&request, false, true), absent),
        call_ensures(UpdateTagRequest::check, (&request, true, true), taken),
        call_ensures(check_tagging, (article_exists, false), put),
        call_ensures(check_untagging, (article_exists, 0), untagged),
    ensures
        colored matches Err(e) ==> (e matches ApiError::Validation(m) && m@
            == "Invalid hex color format. Use #RRGGBB format (e.g., #FF5733)"@),
        absent matches Err(e) && (e matches ApiError::NotFound(m) && m@ == "Tag not found"@),
        taken matches Err(e) ==> (e matches ApiError::Conflict(m) && m@
            == "A tag with this name already exists"@),
        put matches Err(e) && (e matches ApiError::NotFound(m) && m@ == if article_exists {
            "Tag not found"@
        } else {
            "Article not found"@
        }),
        untagged matches Err(e) && (e matches ApiError::NotFound(m) && m@ == if article_exists {
            "Tag not associated with article"@
        } else {
            "Article not found"@
        }),
{
}

} // verus!
