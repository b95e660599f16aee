//! Whether the service runs and has what it needs.

use vstd::prelude::*;
use vstd::string::*;

verus! {

/// The answer to the question whether the service has what it needs.
#[derive(Clone, Copy, Debug)]
pub struct Readiness {
    pub status: &'static str,
    pub database: &'static str,
    pub redis: &'static str,
}

/// The word for what came of a check.
pub open spec fn check_word(ok: bool) -> Seq<char> {
    if ok {
        "ok"@
    } else {
        "error"@
    }
}

fn word(ok: bool) -> (res: &'static str)
    ensures
        res@ == check_word(ok),
{
    if ok {
        "ok"
    } else {
        "error"
    }
}

/// The answer, and its HTTP status: the service has what it needs where both the database and
/// the queue do.
pub fn readiness_check(database: bool, redis: bool) -> (res: (u16, Readiness))
    ensures
        res.0 == if database && redis {
            200u16
        } else {
            503u16
        },
        res.1.status@ == if database && redis {
            "ok"@
        } else {
            "degraded"@
        },
        res.1.database@ == check_word(database),
        res.1.redis@ == check_word(redis),
{
    let ready: bool = database && redis;
    let status: &'static str = if ready {
        "ok"
    } else {
        "degraded"
    };
    (
        if ready {
            200
        } else {
            503
        },
        Readiness { status, database: word(database), redis: word(redis) },
    )
}

/// The service is ready if and only if both the database and the queue are, and tells of each by
/// itself.
pub proof fn service_is_ready_where_both_are(database: bool, redis: bool, res: (u16, Readiness))
    requires
        call_ensures(readiness_check, (database, redis), res),
    ensures
        res.0 == 200 <==> database && redis,
        res.0 == 503 <==> !database || !redis,
        res.1.status@ == "ok"@ <==> res.0 == 200,
        res.1.database@ == "ok"@ <==> database,
        res.1.database@ == "error"@ <==> !database,
        res.1.redis@ == "ok"@ <==> redis,
        res.1.redis@ == "error"@ <==> !redis,
{
    reveal_strlit("ok");
    reveal_strlit("error");
    reveal_strlit("degraded");
    assert("ok"@.len() == 2 && "error"@.len() == 5 && "degraded"@.len() == 8);
}

/// A service that is not ready is degraded.
pub proof fn unready_service_is_degraded(database: bool, redis: bool, res: (u16, Readiness))
    requires
        call_ensures(readiness_check, (database, redis), res),
    ensures
        !database || !redis ==> res.1.status@ == "degraded"@,
{
}

} // verus!
