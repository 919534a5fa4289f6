//! Envelopes for messages. Their data is not encrypted.

use crate::external::{text2, text3};
use vstd::prelude::*;
use vstd::string::*;

verus! {

/// Why a call fails.
#[derive(Clone, Copy, Debug, PartialEq, Eq, Structural)]
pub enum Code {
    InvalidArgument,
    Unavailable,
    Internal,
}

/// A failed call's status.
#[derive(Debug, PartialEq, Eq)]
pub struct Status {
    pub code: Code,
    pub message: String,
}

/// Whether a status has this code and this message.
pub open spec fn is_status(s: Status, code: Code, message: Seq<char>) -> bool {
    s.code == code && s.message@ == message
}

/// A status with a message.
pub fn status(code: Code, message: &str) -> (r: Status)
    ensures
        is_status(r, code, message@),
{
    Status { code, message: String::from_str(message) }
}

/// A status whose message ends in what went wrong.
pub fn status_of(code: Code, message: &str, error: &str) -> (r: Status)
    ensures
        is_status(r, code, message@ + error@),
{
    Status { code, message: text2(message, error) }
}

/// What a message is: the fully qualified name of its class.
#[derive(Debug, Clone, PartialEq, Eq)]
pub struct EncryptionInformation {
    pub kid: String,
}

/// A message in its envelope.
#[derive(Debug, Clone, PartialEq, Eq)]
pub struct EncryptedData {
    pub encryption_information: Option<EncryptionInformation>,
    pub data: Vec<u8>,
}

/// Whether an envelope holds this data of this class.
pub open spec fn is_envelope(e: EncryptedData, kid: Seq<char>, data: Seq<u8>) -> bool {
    &&& e.encryption_information is Some
    &&& e.encryption_information->0.kid@ == kid
    &&& e.data@ == data
}

impl EncryptedData {
    /// The envelope of some data, which is not encrypted.
    pub fn new(kid: &str, data: Vec<u8>) -> (r: Self)
        ensures
            is_envelope(r, kid@, data@),
    {
        EncryptedData {
            encryption_information: Some(EncryptionInformation { kid: String::from_str(kid) }),
            data,
        }
    }

    /// The envelope of no data.
    pub fn stub(kid: &str) -> (r: Self)
        ensures
            is_envelope(r, kid@, Seq::empty()),
    {
        EncryptedData::new(kid, Vec::new())
    }
}

/// The data of an envelope that may be missing or hold none.
pub fn optional_data(encrypted: &Option<EncryptedData>) -> (r: Option<&Vec<u8>>)
    ensures
        match *encrypted {
            Some(e) => if e.data@.len() > 0 {
                r is Some && *r->0 == e.data
            } else {
                r is None
            },
            None => r is None,
        },
{
    match encrypted {
        Some(e) => if e.data.len() > 0 {
            Some(&e.data)
        } else {
            None
        },
        None => None,
    }
}

pub const MISSING_ENVELOPE: &'static str = "missing encrypted data envelope";

/// The data in an envelope.
pub fn unwrap_plaintext_data(encrypted: &Option<EncryptedData>) -> (r: Result<&Vec<u8>, Status>)
    ensures
        match *encrypted {
            Some(e) => r is Ok && *r->Ok_0 == e.data,
            None => r is Err && is_status(r->Err_0, Code::InvalidArgument, MISSING_ENVELOPE@),
        },
{
    match encrypted {
        Some(e) => Ok(&e.data),
        None => Err(status(Code::InvalidArgument, MISSING_ENVELOPE)),
    }
}

/// The name of the message that tells where the device is.
pub const LOCATION_ENVELOPE: &'static str = "LocationEnvelope";

/// Where the device is: its coordinates, as text.
#[derive(Debug, PartialEq, Eq)]
pub struct Coordinates {
    pub latitude: String,
    pub longitude: String,
}

/// What is said of a message that cannot be decoded.
pub open spec fn bad_message(name: Seq<char>, error: Seq<char>) -> Seq<char> {
    "bad "@ + name + ": "@ + error
}

/// The message that was decoded, or the refusal of a call whose message of this name cannot
/// be decoded.
pub fn decoded<T>(name: &str, outcome: Result<T, String>) -> (r: Result<T, Status>)
    ensures
        match outcome {
            Ok(message) => r == Ok::<T, Status>(message),
            Err(e) => r is Err && is_status(
                r->Err_0,
                Code::InvalidArgument,
                bad_message(name@, e@),
            ),
        },
{
    match outcome {
        Ok(message) => Ok(message),
        Err(e) => Err(status_of(Code::InvalidArgument, &text3("bad ", name, ": "), &e)),
    }
}

/// A status has its code and its message, an envelope its key and its bytes, and what cannot be
/// read is named with what is wrong with it.
pub proof fn law_parts_are_carried(
    s: Status,
    code: Code,
    message: Seq<char>,
    e: EncryptedData,
    kid: Seq<char>,
    data: Seq<u8>,
)
    ensures
        is_status(s, code, message) <==> s.code == code && s.message@ == message,
        is_envelope(e, kid, data) ==> (e.encryption_information matches Some(info) && info.kid@ == kid)
            && e.data@ == data,
        bad_message(kid, message) == "bad "@ + kid + ": "@ + message,
{
}

/// What was sent is in the envelope; where it must be there, its absence is an error, and where it
/// need not, an empty envelope counts as none.
pub proof fn law_data_is_in_the_envelope(
    e: Option<EncryptedData>,
    optional: Option<&Vec<u8>>,
    needed: Result<&Vec<u8>, Status>,
)
    requires
        call_ensures(optional_data, (&e,), optional),
        call_ensures(unwrap_plaintext_data, (&e,), needed),
    ensures
        needed is Ok <==> e is Some,
        needed matches Ok(d) ==> *d == e->0.data,
        needed matches Err(s) ==> s.code == Code::InvalidArgument && s.message@
            == "missing encrypted data envelope"@,
        optional is Some <==> e is Some && e->0.data@.len() > 0,
        optional matches Some(d) ==> *d == e->0.data,
{
}

/// A message that can be read is handed on; one that cannot is refused by its name.
pub proof fn law_unreadable_message_is_refused<T>(
    name: &str,
    outcome: Result<T, String>,
    r: Result<T, Status>,
)
    requires
        call_ensures(decoded::<T>, (name, outcome), r),
    ensures
        outcome matches Ok(m) ==> r == Ok::<T, Status>(m),
        outcome matches Err(e) ==> (r matches Err(s) && s.code == Code::InvalidArgument && s.message@
            == "bad "@ + name@ + ": "@ + e@),
{
}

/// An envelope has the key and the bytes that it is made with, and a stub has no bytes.
pub proof fn law_envelope_is_made_of_its_parts(
    kid: &str,
    data: Vec<u8>,
    full: EncryptedData,
    empty: EncryptedData,
)
    requires
        call_ensures(EncryptedData::new, (kid, data), full),
        call_ensures(EncryptedData::stub, (kid,), empty),
    ensures
        full.encryption_information matches Some(i) && i.kid@ == kid@,
        empty.encryption_information matches Some(i) && i.kid@ == kid@,
        full.data@ == data@,
        empty.data@.len() == 0,
{
}

} // verus!
