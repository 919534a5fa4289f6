//! Conversations with the device.

pub mod image_store;
pub mod vision;

use vstd::prelude::*;
use vstd::string::*;

verus! {

/// The gRPC header that identifies each conversation execution.
pub const RUN_ID_HEADER: &'static str = "x-ai-mic-run-id";

pub const UNKNOWN_RUN: &'static str = "unknown";

/// The run id of a request, from the value of its [`RUN_ID_HEADER`], if it has one that is
/// text.
pub fn extract_run_id(header: Option<&str>) -> (r: String)
    ensures
        r@ == match header {
            Some(id) => id@,
            None => UNKNOWN_RUN@,
        },
{
    match header {
        Some(id) => String::from_str(id),
        None => String::from_str(UNKNOWN_RUN),
    }
}

/// A run goes by the id that was sent, or else by none that is known.
pub proof fn law_run_goes_by_its_header(header: Option<&str>, r: String)
    requires
        call_ensures(extract_run_id, (header,), r),
    ensures
        header matches Some(id) ==> r@ == id@,
        header is None ==> r@ == "unknown"@,
{
}

} // verus!
