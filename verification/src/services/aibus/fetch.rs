//! Replies of the web services that are asked on the device's behalf.

use crate::external::text2;
use crate::json::Json;
use crate::services::aibus::envelope;
use crate::services::aibus::envelope::{status_of, Code, Status};
use vstd::prelude::*;
use vstd::string::*;

verus! {

pub const REQUEST_FAILED: &'static str = " request failed: ";

pub const PARSE_FAILED: &'static str = " response parse failed: ";

/// What came of asking a service.
#[derive(Debug, PartialEq, Eq)]
pub enum Fetched {
    /// No answer came, with what went wrong.
    NotSent(String),
    /// The answer is not JSON, with what is wrong with it.
    NotParsed(String),
    Reply(Json),
}

/// The reply of a service, which goes under the name `what`.
pub fn reply_of(what: &str, fetched: Fetched) -> (r: Result<Json, Status>)
    ensures
        match fetched {
            Fetched::NotSent(e) => r is Err && envelope::is_status(
                r->Err_0,
                Code::Unavailable,
                what@ + REQUEST_FAILED@ + e@,
            ),
            Fetched::NotParsed(e) => r is Err && envelope::is_status(
                r->Err_0,
                Code::Internal,
                what@ + PARSE_FAILED@ + e@,
            ),
            Fetched::Reply(reply) => r == Ok::<Json, Status>(reply),
        },
{
    match fetched {
        Fetched::NotSent(e) => Err(
            status_of(Code::Unavailable, &text2(what, REQUEST_FAILED), &e),
        ),
        Fetched::NotParsed(e) => Err(status_of(Code::Internal, &text2(what, PARSE_FAILED), &e)),
        Fetched::Reply(reply) => Ok(reply),
    }
}

/// A reply is handed on; without one the service is not available, and one that cannot be read is
/// an error of the server's.
pub proof fn law_reply_is_handed_on(what: &str, fetched: Fetched, r: Result<Json, Status>)
    requires
        call_ensures(reply_of, (what, fetched), r),
    ensures
        fetched matches Fetched::Reply(j) ==> r == Ok::<Json, Status>(j),
        fetched matches Fetched::NotSent(e) ==> (r matches Err(s) && s.code == Code::Unavailable
            && s.message@ == what@ + " request failed: "@ + e@),
        fetched matches Fetched::NotParsed(e) ==> (r matches Err(s) && s.code == Code::Internal
            && s.message@ == what@ + " response parse failed: "@ + e@),
{
}

} // verus!
