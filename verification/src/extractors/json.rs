//! Bodies of requests in JSON, and the answer to one that is refused.

use vstd::prelude::*;
use vstd::string::*;

use crate::error;
use crate::error::ErrorEnvelope;

verus! {

/// A value read from the body of a request. A body that is refused is answered like every
/// other failure.
#[derive(Debug)]
pub struct ContractJson<T>(pub T);

/// Why the body of a request was refused: the status that the refusal has by itself, and
/// what it says.
#[derive(Debug)]
pub struct ContractJsonRejection {
    pub status: u16,
    pub body_text: String,
}

/// The code for a refusal with this status.
pub open spec fn code_for(status: u16) -> Seq<char> {
    if status == 422 {
        "VALIDATION_ERROR"@
    } else if status == 415 {
        "UNSUPPORTED_MEDIA_TYPE"@
    } else if status == 413 {
        "PAYLOAD_TOO_LARGE"@
    } else {
        "BAD_REQUEST"@
    }
}

impl ContractJsonRejection {
    /// The code for a refusal, from its status alone, so that every refusal has one.
    pub fn code(status: u16) -> (res: &'static str)
        ensures
            res@ == code_for(status),
    {
        if status == 422 {
            "VALIDATION_ERROR"
        } else if status == 415 {
            "UNSUPPORTED_MEDIA_TYPE"
        } else if status == 413 {
            "PAYLOAD_TOO_LARGE"
        } else {
            "BAD_REQUEST"
        }
    }

    /// The answer to the request: only the shape of the refusal changes, its status and
    /// what it says stay.
    pub fn into_envelope(self) -> (res: ErrorEnvelope)
        ensures
            res.status == self.status,
            res.code@ == code_for(self.status),
            res.message@ == self.body_text@,
    {
        error::error_envelope(self.status, Self::code(self.status), self.body_text)
    }
}

/// A refused body keeps its status and what it says, and has the code of its status.
pub proof fn refusal_keeps_what_it_says(
    rejection: ContractJsonRejection,
    res: ErrorEnvelope,
)
    requires
        call_ensures(ContractJsonRejection::into_envelope, (rejection,), res),
    ensures
        res.status == rejection.status,
        res.message@ == rejection.body_text@,
        rejection.status == 413 ==> res.code@ == "PAYLOAD_TOO_LARGE"@,
        rejection.status == 415 ==> res.code@ == "UNSUPPORTED_MEDIA_TYPE"@,
        rejection.status == 422 ==> res.code@ == "VALIDATION_ERROR"@,
        rejection.status != 413 && rejection.status != 415 && rejection.status != 422
            ==> res.code@ == "BAD_REQUEST"@,
{
}

} // verus!
