//! What a device context says about images.

use vstd::prelude::*;
use vstd::string::*;

verus! {

/// A user's request in a conversation.
#[derive(Debug, PartialEq, Eq)]
pub struct UserRequest {
    /// Whether the device marked it as a request to look at something.
    pub vision_requested: bool,
    pub image_data: Vec<u8>,
}

/// A turn of a conversation: a user's request, or something else.
#[derive(Debug, PartialEq, Eq)]
pub enum ChatTurn {
    UserRequest(UserRequest),
    Other,
}

/// What the device tells about its state and the conversation so far.
#[derive(Debug, PartialEq, Eq)]
pub struct DeviceContext {
    pub turns: Vec<ChatTurn>,
    pub reverse_geocoded_location: String,
}

/// Whether the latest user request among some turns asks for vision.
pub open spec fn asks_for_vision(turns: Seq<ChatTurn>) -> bool
    decreases turns.len(),
{
    if turns.len() == 0 {
        false
    } else {
        match turns.last() {
            ChatTurn::UserRequest(req) => req.vision_requested,
            ChatTurn::Other => asks_for_vision(turns.drop_last()),
        }
    }
}

/// The image of the latest user request among some turns, if it has one.
pub open spec fn latest_image(turns: Seq<ChatTurn>) -> Option<Seq<u8>>
    decreases turns.len(),
{
    if turns.len() == 0 {
        None
    } else {
        match turns.last() {
            ChatTurn::UserRequest(req) => if req.image_data@.len() > 0 {
                Some(req.image_data@)
            } else {
                None
            },
            ChatTurn::Other => latest_image(turns.drop_last()),
        }
    }
}

/// Whether the current request is a vision request: what the latest user request says.
pub fn is_vision_request(ctx: &DeviceContext) -> (r: bool)
    ensures
        r == asks_for_vision(ctx.turns@),
{
    let mut i: usize = ctx.turns.len();
    assert(ctx.turns@.take(i as int) =~= ctx.turns@);
    while i > 0
        invariant
            i <= ctx.turns@.len(),
            asks_for_vision(ctx.turns@) == asks_for_vision(ctx.turns@.take(i as int)),
        decreases i,
    {
        assert(ctx.turns@.take(i as int).drop_last() =~= ctx.turns@.take(i - 1));
        i -= 1;
        if let ChatTurn::UserRequest(req) = &ctx.turns[i] {
            return req.vision_requested;
        }
    }
    false
}

/// A copy of some bytes.
pub fn copy_bytes(bytes: &Vec<u8>) -> (r: Vec<u8>)
    ensures
        r@ == bytes@,
{
    let mut out: Vec<u8> = Vec::new();
    let mut i: usize = 0;
    while i < bytes.len()
        invariant
            i <= bytes@.len(),
            out@ == bytes@.take(i as int),
        decreases bytes@.len() - i,
    {
        out.push(bytes[i]);
        assert(bytes@.take(i + 1) =~= bytes@.take(i as int).push(bytes@[i as int]));
        i += 1;
    }
    assert(bytes@.take(i as int) =~= bytes@);
    out
}

/// The image that the device attached to the latest user request, if any.
pub fn extract_most_recent_image_data(ctx: &DeviceContext) -> (r: Option<Vec<u8>>)
    ensures
        r is Some <==> latest_image(ctx.turns@) is Some,
        r matches Some(b) ==> latest_image(ctx.turns@) == Some(b@),
{
    let mut i: usize = ctx.turns.len();
    assert(ctx.turns@.take(i as int) =~= ctx.turns@);
    while i > 0
        invariant
            i <= ctx.turns@.len(),
            latest_image(ctx.turns@) == latest_image(ctx.turns@.take(i as int)),
        decreases i,
    {
        assert(ctx.turns@.take(i as int).drop_last() =~= ctx.turns@.take(i - 1));
        i -= 1;
        if let ChatTurn::UserRequest(req) = &ctx.turns[i] {
            return if req.image_data.len() > 0 {
                Some(copy_bytes(&req.image_data))
            } else {
                None
            };
        }
    }
    None
}

/// The latest user request decides: its image is the one that is taken, if it has one, and its
/// mark says whether the request is for vision. Earlier requests and other turns do not matter.
pub proof fn law_latest_request_decides(turns: Seq<ChatTurn>, k: int, req: UserRequest)
    requires
        0 <= k < turns.len(),
        turns[k] == ChatTurn::UserRequest(req),
        forall|i: int| k < i < turns.len() ==> (#[trigger] turns[i]) is Other,
    ensures
        asks_for_vision(turns) == req.vision_requested,
        req.image_data@.len() > 0 ==> latest_image(turns) == Some(req.image_data@),
        req.image_data@.len() == 0 ==> latest_image(turns) is None,
    decreases turns.len(),
{
    if k < turns.len() - 1 {
        assert(turns[turns.len() - 1] is Other);
        assert(turns.drop_last()[k] == turns[k]);
        assert forall|i: int| k < i < turns.drop_last().len() implies (
        #[trigger] turns.drop_last()[i]) is Other by {
            assert(turns[i] is Other);
        }
        law_latest_request_decides(turns.drop_last(), k, req);
    }
}

/// Without a user request there is no image, and no request for vision.
pub proof fn law_no_request_no_vision(turns: Seq<ChatTurn>)
    requires
        forall|i: int| 0 <= i < turns.len() ==> (#[trigger] turns[i]) is Other,
    ensures
        !asks_for_vision(turns),
        latest_image(turns) is None,
    decreases turns.len(),
{
    if turns.len() > 0 {
        assert(turns[turns.len() - 1] is Other);
        assert forall|i: int| 0 <= i < turns.drop_last().len() implies (
        #[trigger] turns.drop_last()[i]) is Other by {
            assert(turns[i] is Other);
        }
        law_no_request_no_vision(turns.drop_last());
    }
}

} // verus!
