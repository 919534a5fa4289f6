//! Images that the device has captured.

use crate::chars;
use crate::codec;
use crate::services::aibus::envelope;
use crate::services::aibus::envelope::{
    decoded, status, status_of, Code, EncryptedData, Status,
};
use crate::synapse::image_store;
use crate::synapse::image_store::LiveImageStore;
use crate::synapse::vision::copy_bytes;
use vstd::prelude::*;
use vstd::string::*;

verus! {

pub const ANALYZE_IMAGE_RESPONSE: &'static str = "humane.aibus.AnalyzeImageResponse";

pub const DEFAULT_QUESTION: &'static str = "What do you see in this image?";

pub const BAD_BASE64: &'static str = "bad base64 image: ";

pub const NO_IMAGE: &'static str = "image_data is empty";

pub const IMAGE_CAPTURED: &'static str = "Image captured";

#[derive(Debug, PartialEq, Eq)]
pub struct AnalyzeImageRequest {
    pub request: String,
    pub utterance: String,
    pub image_data: Vec<u8>,
    pub base64_encoded_image: String,
}

/// The answer. Its text is fixed: the device does not read it.
#[derive(Debug, PartialEq, Eq)]
pub struct AnalyzeImageResponse {
    pub observation: String,
    pub generic_observation: String,
}

/// What is asked about an image.
pub fn image_question(req: &AnalyzeImageRequest) -> (r: &str)
    ensures
        r@ == if req.request@.len() > 0 {
            req.request@
        } else if req.utterance@.len() > 0 {
            req.utterance@
        } else {
            DEFAULT_QUESTION@
        },
{
    if !req.request.as_str().is_empty() {
        req.request.as_str()
    } else if !req.utterance.as_str().is_empty() {
        req.utterance.as_str()
    } else {
        DEFAULT_QUESTION
    }
}

/// The image of a request, given what its Base64 text decodes to: raw bytes come before
/// the text.
pub open spec fn image_of(
    raw: Seq<u8>,
    text: Seq<char>,
    decoded: Result<Seq<u8>, Seq<char>>,
) -> Result<Seq<u8>, Seq<char>> {
    if raw.len() > 0 {
        Ok(raw)
    } else if text.len() > 0 {
        match decoded {
            Ok(bytes) => if bytes.len() > 0 {
                Ok(bytes)
            } else {
                Err(NO_IMAGE@)
            },
            Err(e) => Err(BAD_BASE64@ + e),
        }
    } else {
        Err(NO_IMAGE@)
    }
}

/// The views of bytes or an error text.
pub open spec fn bytes_result(r: Result<Vec<u8>, String>) -> Result<Seq<u8>, Seq<char>> {
    match r {
        Ok(b) => Ok(b@),
        Err(e) => Err(e@),
    }
}

/// The image of a request, given what its Base64 text decodes to.
pub fn request_image(req: &AnalyzeImageRequest, decoded: Result<Vec<u8>, String>) -> (r: Result<
    Vec<u8>,
    Status,
>)
    ensures
        match image_of(req.image_data@, req.base64_encoded_image@, bytes_result(decoded)) {
            Ok(bytes) => r is Ok && r->Ok_0@ == bytes && bytes.len() > 0,
            Err(e) => r is Err && envelope::is_status(r->Err_0, Code::InvalidArgument, e),
        },
{
    if req.image_data.len() > 0 {
        Ok(copy_bytes(&req.image_data))
    } else if !req.base64_encoded_image.as_str().is_empty() {
        match decoded {
            Ok(bytes) => if bytes.len() > 0 {
                Ok(bytes)
            } else {
                Err(status(Code::InvalidArgument, NO_IMAGE))
            },
            Err(e) => Err(status_of(Code::InvalidArgument, BAD_BASE64, &e)),
        }
    } else {
        Err(status(Code::InvalidArgument, NO_IMAGE))
    }
}

/// Whether this is the answer to a request, and what it makes of the images that are kept.
pub open spec fn is_answer(
    r: Result<AnalyzeImageResponse, Status>,
    before: LiveImageStore,
    after: LiveImageStore,
    run_id: Seq<char>,
    req: AnalyzeImageRequest,
    now: u128,
) -> bool {
    match image_of(
        req.image_data@,
        req.base64_encoded_image@,
        codec::base64_bytes(req.base64_encoded_image@),
    ) {
        Ok(bytes) => {
            &&& r is Ok
            &&& r->Ok_0.observation@.len() == 0
            &&& r->Ok_0.generic_observation@ == IMAGE_CAPTURED@
            &&& image_store::is_capped(
                image_store::live(before@, now).insert(
                    run_id,
                    (image_store::EntryView { bytes, last_access: now }),
                ),
                run_id,
                after@,
            )
        },
        Err(e) => {
            &&& r is Err
            &&& envelope::is_status(r->Err_0, Code::InvalidArgument, e)
            &&& after == before
        },
    }
}

/// Keeps a captured image for a later step of its run. A request without an image changes
/// nothing.
pub fn analyze_image_inner(
    store: &mut LiveImageStore,
    run_id: &str,
    req: &AnalyzeImageRequest,
    now: u128,
) -> (r: Result<AnalyzeImageResponse, Status>)
    requires
        old(store).wf(),
    ensures
        final(store).wf(),
        is_answer(r, *old(store), *final(store), run_id@, *req, now),
{
    let decoded = codec::decode_standard(&req.base64_encoded_image);
    assert(bytes_result(decoded) == codec::base64_bytes(req.base64_encoded_image@));
    match request_image(req, decoded) {
        Ok(bytes) => {
            store.put(run_id, bytes, now);
            Ok(
                AnalyzeImageResponse {
                    observation: String::new(),
                    generic_observation: String::from_str(IMAGE_CAPTURED),
                },
            )
        },
        Err(e) => Err(e),
    }
}

/// The name of the message that a request is.
pub const ANALYZE_IMAGE_REQUEST: &'static str = "AnalyzeImageRequest";

/// Keeps the image of a request that came in an envelope, given what its data decodes to.
pub fn analyze_decoded_image(
    store: &mut LiveImageStore,
    run_id: &str,
    req: Result<AnalyzeImageRequest, String>,
    now: u128,
) -> (r: Result<AnalyzeImageResponse, Status>)
    requires
        old(store).wf(),
    ensures
        final(store).wf(),
        match req {
            Ok(req) => is_answer(r, *old(store), *final(store), run_id@, req, now),
            Err(e) => {
                &&& r is Err
                &&& envelope::is_status(
                    r->Err_0,
                    Code::InvalidArgument,
                    envelope::bad_message(ANALYZE_IMAGE_REQUEST@, e@),
                )
                &&& *final(store) == *old(store)
            },
        },
{
    match decoded(ANALYZE_IMAGE_REQUEST, req) {
        Ok(req) => analyze_image_inner(store, run_id, &req, now),
        Err(e) => Err(e),
    }
}

/// The envelope of an encoded answer to an image.
pub fn encrypted_analyze_image(response: Vec<u8>) -> (r: EncryptedData)
    ensures
        envelope::is_envelope(r, ANALYZE_IMAGE_RESPONSE@, response@),
{
    EncryptedData::new(ANALYZE_IMAGE_RESPONSE, response)
}

// ---- Laws ----

/// The raw image is taken where there is one; the text only without it; and nothing is taken that
/// is empty or cannot be decoded.
pub proof fn law_raw_image_goes_before(
    raw: Seq<u8>,
    text: Seq<char>,
    decoded: Result<Seq<u8>, Seq<char>>,
)
    ensures
        raw.len() > 0 ==> image_of(raw, text, decoded) == Ok::<Seq<u8>, Seq<char>>(raw),
        raw.len() == 0 && text.len() > 0 ==> (decoded matches Ok(bytes) ==> (bytes.len() > 0 ==> image_of(
            raw,
            text,
            decoded,
        ) == Ok::<Seq<u8>, Seq<char>>(bytes))),
        raw.len() == 0 && text.len() > 0 ==> (decoded matches Err(e) ==> image_of(raw, text, decoded)
            == Err::<Seq<u8>, Seq<char>>("bad base64 image: "@ + e)),
        raw.len() == 0 && text.len() == 0 ==> image_of(raw, text, decoded) == Err::<
            Seq<u8>,
            Seq<char>,
        >("image_data is empty"@),
        image_of(raw, text, decoded) matches Ok(bytes) ==> bytes.len() > 0,
{
}

/// An image that was sent is in the store from then on, under its run; one that cannot be taken
/// leaves the store as it was.
pub proof fn law_sent_image_is_stored(
    r: Result<AnalyzeImageResponse, Status>,
    before: LiveImageStore,
    after: LiveImageStore,
    run_id: Seq<char>,
    req: AnalyzeImageRequest,
    now: u128,
    later: u128,
)
    requires
        is_answer(r, before, after, run_id, req, now),
        image_store::age(now, later) < 300_000_000_000,
    ensures
        req.image_data@.len() > 0 ==> {
            &&& r is Ok
            &&& image_store::live(after@, later).contains_key(run_id)
            &&& image_store::live(after@, later)[run_id].bytes == req.image_data@
        },
        r is Ok ==> image_store::live(after@, later).contains_key(run_id) && image_store::live(
            after@,
            later,
        )[run_id].bytes.len() > 0,
        r is Ok ==> r->Ok_0.generic_observation@ == "Image captured"@ && r->Ok_0.observation@.len() == 0,
        r is Err ==> after == before && r->Err_0.code == Code::InvalidArgument,
{
    let image = image_of(
        req.image_data@,
        req.base64_encoded_image@,
        codec::base64_bytes(req.base64_encoded_image@),
    );
    if let Ok(bytes) = image {
        image_store::law_stored_image_is_found(before@, run_id, bytes, now, after@, later);
    }
}

/// The question is the request, or else what was said, or else what anyone would ask.
pub proof fn law_question_is_what_was_asked(req: AnalyzeImageRequest, r: &str)
    requires
        call_ensures(image_question, (&req,), r),
    ensures
        req.request@.len() > 0 ==> r@ == req.request@,
        req.request@.len() == 0 && req.utterance@.len() > 0 ==> r@ == req.utterance@,
        req.request@.len() == 0 && req.utterance@.len() == 0 ==> r@
            == "What do you see in this image?"@,
        r@.len() > 0,
{
    reveal_strlit("What do you see in this image?");
}

/// The image of a request is not empty, and the raw one where there is one.
pub proof fn law_request_image_is_not_empty(
    req: AnalyzeImageRequest,
    decoded: Result<Vec<u8>, String>,
    r: Result<Vec<u8>, Status>,
)
    requires
        call_ensures(request_image, (&req, decoded), r),
    ensures
        r matches Ok(bytes) ==> bytes@.len() > 0,
        req.image_data@.len() > 0 ==> r is Ok && r->Ok_0@ == req.image_data@,
        req.image_data@.len() == 0 && req.base64_encoded_image@.len() == 0 ==> r is Err,
        r matches Err(s) ==> s.code == Code::InvalidArgument,
{
}

} // verus!
