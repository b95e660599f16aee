//! What many requests have in common.

use vstd::prelude::*;
use vstd::string::*;

use crate::error;
use crate::error::{ApiError, ApiResult, ErrorKind};

verus! {

/// The stored thing that a request is about, or the failure that names what is missing.
pub fn require_found<T>(row: Option<T>, missing: &str) -> (res: ApiResult<T>)
    ensures
        match row {
            Some(row) => res == Ok::<T, ApiError>(row),
            None => error::fails(res, ErrorKind::NotFound, missing@),
        },
{
    match row {
        Some(row) => Ok(row),
        None => Err(ApiError::NotFound(missing.to_string())),
    }
}

/// A request that names a thing fails where that thing is not there.
pub fn require_exists(exists: bool, missing: &str) -> (res: ApiResult<()>)
    ensures
        exists ==> res is Ok,
        !exists ==> error::fails(res, ErrorKind::NotFound, missing@),
{
    if exists {
        Ok(())
    } else {
        Err(ApiError::NotFound(missing.to_string()))
    }
}

/// A request that changes or deletes a thing fails where no row was touched.
pub fn require_affected(rows: u64, missing: &str) -> (res: ApiResult<()>)
    ensures
        rows > 0 ==> res is Ok,
        rows == 0 ==> error::fails(res, ErrorKind::NotFound, missing@),
{
    require_exists(rows > 0, missing)
}

/// A text with a prefix.
pub fn prefixed(prefix: &str, rest: &str) -> (res: String)
    ensures
        res@ == prefix@ + rest@,
{
    let mut res: String = prefix.to_string();
    res.append(rest);
    res
}

/// A request that gives a name fails where the name is taken.
pub fn require_unique(taken: bool, conflict: &str) -> (res: ApiResult<()>)
    ensures
        !taken ==> res is Ok,
        taken ==> error::fails(res, ErrorKind::Conflict, conflict@),
{
    if taken {
        Err(ApiError::Conflict(conflict.to_string()))
    } else {
        Ok(())
    }
}

/// A field of a request whose value is not accepted.
#[derive(Clone, Copy, Debug, PartialEq, Eq, Structural)]
pub enum Violation {
    /// The address is none.
    Email,
    /// The password is too short.
    PasswordLength,
}

/// The number of characters of a text lies within bounds.
pub open spec fn within(s: Seq<char>, min: nat, max: nat) -> bool {
    min <= s.len() <= max
}

/// Whether the number of characters of a text lies within bounds.
pub fn is_within(s: &str, min: usize, max: usize) -> (res: bool)
    ensures
        res == within(s@, min as nat, max as nat),
{
    let length: usize = crate::text::char_count(s);
    min <= length && length <= max
}

/// What a request needs is taken as it is, and what is not there or is taken already is said to
/// be that.
pub proof fn what_is_missing_is_said<T>(
    row: Option<T>,
    found: ApiResult<T>,
    exists: bool,
    there: ApiResult<()>,
    rows: u64,
    touched: ApiResult<()>,
    taken: bool,
    free: ApiResult<()>,
    message: &str,
)
    requires
        call_ensures(require_found::<T>, (row, message), found),
        call_ensures(require_exists, (exists, message), there),
        call_ensures(require_affected, (rows, message), touched),
        call_ensures(require_unique, (taken, message), free),
    ensures
        found is Ok <==> row is Some,
        found matches Ok(it) ==> row == Some(it),
        found matches Err(e) ==> (e matches ApiError::NotFound(m) && m@ == message@),
        there is Ok <==> exists,
        there matches Err(e) ==> (e matches ApiError::NotFound(m) && m@ == message@),
        touched is Ok <==> rows != 0,
        touched matches Err(e) ==> (e matches ApiError::NotFound(m) && m@ == message@),
        free is Ok <==> !taken,
        free matches Err(e) ==> (e matches ApiError::Conflict(m) && m@ == message@),
{
}

/// A prefix stands in front of a text, and a text is within bounds if and only if it has neither
/// fewer nor more characters than they say.
pub proof fn prefixes_and_bounds(
    prefix: &str,
    rest: &str,
    res: String,
    min: usize,
    max: usize,
    within_bounds: bool,
)
    requires
        call_ensures(prefixed, (prefix, rest), res),
        call_ensures(is_within, (rest, min, max), within_bounds),
    ensures
        res@.len() == prefix@.len() + rest@.len(),
        res@.take(prefix@.len() as int) == prefix@,
        res@.skip(prefix@.len() as int) == rest@,
        within_bounds <==> !(rest@.len() < min) && !(rest@.len() > max),
{
    assert(res@.take(prefix@.len() as int) =~= prefix@);
    assert(res@.skip(prefix@.len() as int) =~= rest@);
}

} // verus!
