//! The IPC boundary: encoding requests under fresh request identifiers, and
//! decoding incoming messages into exactly one outcome.

use vstd::prelude::*;

use crate::codec::{enc_list, serialise_list, view_list};
use crate::errors::{FfiError, IpcError};
use crate::ipc_msg::{
    decode_msg_bytes, enc_msg, encode_msg_bytes, lemma_msg_round_trip, msg_fits, parse_msg, req_fits,
    IpcMsg, IpcReq, IpcResp, MsgView, ReqView, RespView,
};
use crate::req_id::{ReqIdGen, ID_SPACE};

verus! {

/// The text that ffi_utils' base64 encoding gives for `b`.
pub uninterp spec fn base64_of(b: Seq<u8>) -> Seq<char>;

/// The bytes that ffi_utils' base64 decoding reads from `s`, or `None` where
/// it refuses the text.
pub uninterp spec fn base64_decoded(s: Seq<char>) -> Option<Seq<u8>>;

/// Relies on `ffi_utils::base64_encode` (URL-safe alphabet, no padding): the
/// text depends on the bytes alone, and `ffi_utils::base64_decode` reads the
/// bytes back from it.
#[verifier::external_body]
fn base64_encode(b: &[u8]) -> (r: String)
    ensures
        r@ == base64_of(b@),
        base64_decoded(r@) == Some(b@),
{
    ffi_utils::base64_encode(b)
}

/// Relies on `ffi_utils::base64_decode`: the result depends on the text alone.
#[verifier::external_body]
fn base64_decode(s: &str) -> (r: Option<Vec<u8>>)
    ensures
        r is Some <==> base64_decoded(s@) is Some,
        r is Some ==> r->Some_0@ == base64_decoded(s@)->Some_0,
{
    ffi_utils::base64_decode(s).ok()
}

/// The message that a text holds: the bytes that base64 decoding reads from
/// it, read as a message.
pub open spec fn text_msg(s: Seq<char>) -> Option<MsgView> {
    match base64_decoded(s) {
        Some(b) => parse_msg(b),
        None => None,
    }
}

/// The text of a message: base64 of its bytes.
pub fn encode_msg(m: &IpcMsg) -> (r: String)
    ensures
        r@ == base64_of(enc_msg(m@)),
        base64_decoded(r@) == Some(enc_msg(m@)),
{
    let bytes = encode_msg_bytes(m);
    base64_encode(bytes.as_slice())
}

/// The message that a text holds; `InvalidMessage` where it holds none.
pub fn decode_msg(s: &str) -> (r: Result<IpcMsg, FfiError>)
    ensures
        r is Ok <==> text_msg(s@) is Some,
        r is Ok ==> r->Ok_0@ == text_msg(s@)->Some_0,
        r is Err ==> r->Err_0 == FfiError::InvalidMessage,
{
    match base64_decode(s) {
        Some(bytes) => decode_msg_bytes(bytes.as_slice()),
        None => Err(FfiError::InvalidMessage),
    }
}

/// Every payload of a request held in memory fits its length prefix.
proof fn lemma_req_fits(req: &IpcReq)
    ensures
        req_fits(req@),
{
    match req {
        IpcReq::ShareMData(p) => {
            assert forall|i: int| 0 <= i < view_list(p@).len() implies (#[trigger] view_list(
                p@,
            )[i]).len() <= u64::MAX by {
                assert(p@[i]@.len() == p@[i].len());
            }
            assert(view_list(p@).len() == p.len());
        },
        IpcReq::Auth(p) => {
            assert(p@.len() == p.len());
        },
        IpcReq::Containers(p) => {
            assert(p@.len() == p.len());
        },
        IpcReq::Unregistered(p) => {
            assert(p@.len() == p.len());
        },
    }
}

/// Wraps `req` in a request envelope under a fresh identifier and encodes it.
/// Refused with `EncodingError`, producing nothing, once every identifier has
/// been issued.
pub fn encode_ipc(ids: &mut ReqIdGen, req: IpcReq) -> (r: Result<(u32, String), FfiError>)
    requires
        old(ids).wf(),
    ensures
        final(ids).wf(),
        r is Err <==> old(ids).issued().len() >= ID_SPACE,
        r is Err ==> r->Err_0 == FfiError::EncodingError,
        r is Err ==> final(ids).issued() == old(ids).issued(),
        r is Ok ==> !old(ids).issued().contains(r->Ok_0.0),
        r is Ok ==> forall|i: int|
            0 <= i < old(ids).issued().len() ==> old(ids).issued()[i] != r->Ok_0.0,
        r is Ok ==> final(ids).issued() == old(ids).issued().push(r->Ok_0.0),
        r is Ok ==> r->Ok_0.1@ == base64_of(enc_msg(MsgView::Req(r->Ok_0.0, req@))),
        r is Ok ==> text_msg(r->Ok_0.1@) == Some(MsgView::Req(r->Ok_0.0, req@)),
{
    if !ids.can_issue() {
        return Err(FfiError::EncodingError);
    }
    let req_id = ids.gen_req_id();
    proof {
        lemma_req_fits(&req);
        lemma_msg_round_trip(MsgView::Req(req_id, req@));
    }
    let msg = IpcMsg::Req { req_id, req };
    let encoded = encode_msg(&msg);
    Ok((req_id, encoded))
}

/// Encodes an authorisation request, as `encode_ipc` does.
pub fn encode_auth_req(ids: &mut ReqIdGen, req: Vec<u8>) -> (r: Result<(u32, String), FfiError>)
    requires
        old(ids).wf(),
    ensures
        final(ids).wf(),
        r is Err <==> old(ids).issued().len() >= ID_SPACE,
        r is Err ==> r->Err_0 == FfiError::EncodingError,
        r is Err ==> final(ids).issued() == old(ids).issued(),
        r is Ok ==> !old(ids).issued().contains(r->Ok_0.0),
        r is Ok ==> forall|i: int|
            0 <= i < old(ids).issued().len() ==> old(ids).issued()[i] != r->Ok_0.0,
        r is Ok ==> final(ids).issued() == old(ids).issued().push(r->Ok_0.0),
        r is Ok ==> r->Ok_0.1@ == base64_of(enc_msg(MsgView::Req(r->Ok_0.0, ReqView::Auth(req@)))),
        r is Ok ==> text_msg(r->Ok_0.1@) == Some(MsgView::Req(r->Ok_0.0, ReqView::Auth(req@))),
{
    encode_ipc(ids, IpcReq::Auth(req))
}

/// Encodes a containers request, as `encode_ipc` does.
pub fn encode_containers_req(ids: &mut ReqIdGen, req: Vec<u8>) -> (r: Result<(u32, String), FfiError>)
    requires
        old(ids).wf(),
    ensures
        final(ids).wf(),
        r is Err <==> old(ids).issued().len() >= ID_SPACE,
        r is Err ==> r->Err_0 == FfiError::EncodingError,
        r is Err ==> final(ids).issued() == old(ids).issued(),
        r is Ok ==> !old(ids).issued().contains(r->Ok_0.0),
        r is Ok ==> forall|i: int|
            0 <= i < old(ids).issued().len() ==> old(ids).issued()[i] != r->Ok_0.0,
        r is Ok ==> final(ids).issued() == old(ids).issued().push(r->Ok_0.0),
        r is Ok ==> r->Ok_0.1@ == base64_of(enc_msg(MsgView::Req(r->Ok_0.0, ReqView::Containers(req@)))),
        r is Ok ==> text_msg(r->Ok_0.1@) == Some(MsgView::Req(r->Ok_0.0, ReqView::Containers(req@))),
{
    encode_ipc(ids, IpcReq::Containers(req))
}

/// Encodes a request of an unregistered client, carrying `extra_data`, as `encode_ipc` does.
pub fn encode_unregistered_req(ids: &mut ReqIdGen, extra_data: Vec<u8>) -> (r: Result<(u32, String), FfiError>)
    requires
        old(ids).wf(),
    ensures
        final(ids).wf(),
        r is Err <==> old(ids).issued().len() >= ID_SPACE,
        r is Err ==> r->Err_0 == FfiError::EncodingError,
        r is Err ==> final(ids).issued() == old(ids).issued(),
        r is Ok ==> !old(ids).issued().contains(r->Ok_0.0),
        r is Ok ==> forall|i: int|
            0 <= i < old(ids).issued().len() ==> old(ids).issued()[i] != r->Ok_0.0,
        r is Ok ==> final(ids).issued() == old(ids).issued().push(r->Ok_0.0),
        r is Ok ==> r->Ok_0.1@ == base64_of(enc_msg(MsgView::Req(r->Ok_0.0, ReqView::Unregistered(extra_data@)))),
        r is Ok ==> text_msg(r->Ok_0.1@) == Some(MsgView::Req(r->Ok_0.0, ReqView::Unregistered(extra_data@))),
{
    encode_ipc(ids, IpcReq::Unregistered(extra_data))
}

/// Encodes a request to share mutable data, one descriptor per item, as `encode_ipc` does.
pub fn encode_share_mdata_req(ids: &mut ReqIdGen, mdata: Vec<Vec<u8>>) -> (r: Result<(u32, String), FfiError>)
    requires
        old(ids).wf(),
    ensures
        final(ids).wf(),
        r is Err <==> old(ids).issued().len() >= ID_SPACE,
        r is Err ==> r->Err_0 == FfiError::EncodingError,
        r is Err ==> final(ids).issued() == old(ids).issued(),
        r is Ok ==> !old(ids).issued().contains(r->Ok_0.0),
        r is Ok ==> forall|i: int|
            0 <= i < old(ids).issued().len() ==> old(ids).issued()[i] != r->Ok_0.0,
        r is Ok ==> final(ids).issued() == old(ids).issued().push(r->Ok_0.0),
        r is Ok ==> r->Ok_0.1@ == base64_of(enc_msg(MsgView::Req(r->Ok_0.0, ReqView::ShareMData(view_list(mdata@))))),
        r is Ok ==> text_msg(r->Ok_0.1@) == Some(MsgView::Req(r->Ok_0.0, ReqView::ShareMData(view_list(mdata@)))),
{
    encode_ipc(ids, IpcReq::ShareMData(mdata))
}

/// The one outcome of decoding a message. Each variant stands for a distinct
/// notification; a decode yields exactly one.
pub enum Dispatch {
    /// Authorisation granted, with the serialised credentials.
    AuthGranted { req_id: u32, auth_granted: Vec<u8> },
    /// Bootstrap configuration granted, serialised for the caller.
    UnregisteredGranted { req_id: u32, serialised_cfg: Vec<u8> },
    ContainersGranted { req_id: u32 },
    ShareMDataGranted { req_id: u32 },
    Revoked,
    /// A failure; `req_id` is 0 where the message named no request.
    Error { req_id: u32, error: FfiError },
}

/// What an outcome holds.
pub enum DispatchView {
    AuthGranted(u32, Seq<u8>),
    UnregisteredGranted(u32, Seq<u8>),
    ContainersGranted(u32),
    ShareMDataGranted(u32),
    Revoked,
    Error(u32, FfiError),
}

impl View for Dispatch {
    type V = DispatchView;

    open spec fn view(&self) -> DispatchView {
        match self {
            Dispatch::AuthGranted { req_id, auth_granted } => DispatchView::AuthGranted(
                *req_id,
                auth_granted@,
            ),
            Dispatch::UnregisteredGranted { req_id, serialised_cfg } =>
                DispatchView::UnregisteredGranted(*req_id, serialised_cfg@),
            Dispatch::ContainersGranted { req_id } => DispatchView::ContainersGranted(*req_id),
            Dispatch::ShareMDataGranted { req_id } => DispatchView::ShareMDataGranted(*req_id),
            Dispatch::Revoked => DispatchView::Revoked,
            Dispatch::Error { req_id, error } => DispatchView::Error(*req_id, *error),
        }
    }
}

/// The outcome for message `m`, where `reencoded` is the serialised
/// bootstrap configuration (`None` where serialising it failed).
pub open spec fn dispatch_spec(m: MsgView, reencoded: Option<Seq<u8>>) -> DispatchView {
    match m {
        MsgView::Resp(id, RespView::Auth(Ok(p))) => DispatchView::AuthGranted(id, p),
        MsgView::Resp(id, RespView::Auth(Err(e))) => DispatchView::Error(id, FfiError::Ipc(e)),
        MsgView::Resp(id, RespView::Containers(Ok(_))) => DispatchView::ContainersGranted(id),
        MsgView::Resp(id, RespView::Containers(Err(e))) => DispatchView::Error(
            id,
            FfiError::Ipc(e),
        ),
        MsgView::Resp(id, RespView::Unregistered(Ok(_))) => match reencoded {
            Some(bytes) => DispatchView::UnregisteredGranted(id, bytes),
            None => DispatchView::Error(id, FfiError::EncodingError),
        },
        MsgView::Resp(id, RespView::Unregistered(Err(e))) => DispatchView::Error(
            id,
            FfiError::Ipc(e),
        ),
        MsgView::Resp(id, RespView::ShareMData(Ok(_))) => DispatchView::ShareMDataGranted(id),
        MsgView::Resp(id, RespView::ShareMData(Err(e))) => DispatchView::Error(
            id,
            FfiError::Ipc(e),
        ),
        MsgView::Revoked => DispatchView::Revoked,
        MsgView::Req(_, _) => DispatchView::Error(0, FfiError::InvalidMessage),
    }
}

/// The bootstrap configuration that a granted unregistered response carries.
pub open spec fn granted_cfg(m: MsgView) -> Option<Seq<Seq<u8>>> {
    match m {
        MsgView::Resp(_, RespView::Unregistered(Ok(cfg))) => Some(cfg),
        _ => None,
    }
}

/// The outcome for `msg`, given the serialised bootstrap configuration
/// (`None` where serialising failed; not read for other messages).
pub fn dispatch_with(msg: IpcMsg, reencoded: Option<Vec<u8>>) -> (r: Dispatch)
    ensures
        r@ == dispatch_spec(
            msg@,
            match reencoded {
                Some(v) => Some(v@),
                None => None,
            },
        ),
{
    match msg {
        IpcMsg::Resp { req_id, resp } => match resp {
            IpcResp::Auth(Ok(auth_granted)) => Dispatch::AuthGranted { req_id, auth_granted },
            IpcResp::Containers(Ok(_)) => Dispatch::ContainersGranted { req_id },
            IpcResp::Unregistered(Ok(_)) => match reencoded {
                Some(serialised_cfg) => Dispatch::UnregisteredGranted { req_id, serialised_cfg },
                None => Dispatch::Error { req_id, error: FfiError::EncodingError },
            },
            IpcResp::ShareMData(Ok(_)) => Dispatch::ShareMDataGranted { req_id },
            IpcResp::Auth(Err(e)) => Dispatch::Error { req_id, error: FfiError::Ipc(e) },
            IpcResp::Containers(Err(e)) => Dispatch::Error { req_id, error: FfiError::Ipc(e) },
            IpcResp::Unregistered(Err(e)) => Dispatch::Error { req_id, error: FfiError::Ipc(e) },
            IpcResp::ShareMData(Err(e)) => Dispatch::Error { req_id, error: FfiError::Ipc(e) },
        },
        IpcMsg::Revoked => Dispatch::Revoked,
        IpcMsg::Req { .. } => Dispatch::Error { req_id: 0, error: FfiError::InvalidMessage },
    }
}

/// The serialised bootstrap configuration of a granted unregistered
/// response: its contacts laid out as a counted list.
pub open spec fn reencoded_cfg(m: MsgView) -> Option<Seq<u8>> {
    match granted_cfg(m) {
        Some(cfg) => Some(enc_list(cfg)),
        None => None,
    }
}

/// The outcome for `msg`. A granted bootstrap configuration is serialised
/// again for the caller.
pub fn dispatch_msg(msg: IpcMsg) -> (r: Dispatch)
    ensures
        r@ == dispatch_spec(msg@, reencoded_cfg(msg@)),
{
    let reencoded = match &msg {
        IpcMsg::Resp { resp: IpcResp::Unregistered(Ok(cfg)), .. } => serialise_list(cfg),
        _ => None,
    };
    dispatch_with(msg, reencoded)
}

/// Decodes a message text into its one outcome. Text that holds no message,
/// or holds a request, gives `InvalidMessage` with request id 0.
pub fn decode_ipc_msg(s: &str) -> (r: Dispatch)
    ensures
        r@ == match text_msg(s@) {
            None => DispatchView::Error(0, FfiError::InvalidMessage),
            Some(m) => dispatch_spec(m, reencoded_cfg(m)),
        },
{
    match decode_msg(s) {
        Ok(msg) => dispatch_msg(msg),
        Err(error) => Dispatch::Error { req_id: 0, error },
    }
}

/// Decoding the encoding of any message gives back that message: the same
/// kind, request id and payload. For text, this holds of every text whose
/// base64 decoding gives the message's bytes, which `encode_msg` guarantees
/// of the text it returns.
pub proof fn lemma_encode_decode(m: MsgView, text: Seq<char>)
    requires
        msg_fits(m),
        base64_decoded(text) == Some(enc_msg(m)),
    ensures
        parse_msg(enc_msg(m)) == Some(m),
        text_msg(text) == Some(m),
{
    lemma_msg_round_trip(m);
}

/// A granted authorisation reaches only the authorisation outcome, and a
/// refused containers request only the error outcome, under its request id.
pub proof fn lemma_dispatch_exclusive(
    id: u32,
    granted: Seq<u8>,
    e: IpcError,
    reencoded: Option<Seq<u8>>,
)
    requires
        granted.len() <= u64::MAX,
    ensures
        parse_msg(enc_msg(MsgView::Resp(id, RespView::Auth(Ok(granted))))) == Some(
            MsgView::Resp(id, RespView::Auth(Ok(granted))),
        ),
        dispatch_spec(MsgView::Resp(id, RespView::Auth(Ok(granted))), reencoded)
            == DispatchView::AuthGranted(id, granted),
        parse_msg(enc_msg(MsgView::Resp(id, RespView::Containers(Err(e))))) == Some(
            MsgView::Resp(id, RespView::Containers(Err(e))),
        ),
        dispatch_spec(MsgView::Resp(id, RespView::Containers(Err(e))), reencoded)
            == DispatchView::Error(id, FfiError::Ipc(e)),
{
    lemma_msg_round_trip(MsgView::Resp(id, RespView::Auth(Ok(granted))));
    lemma_msg_round_trip(MsgView::Resp(id, RespView::Containers(Err(e))));
}

} // verus!
