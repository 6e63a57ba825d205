//! IPC envelopes and their byte layout.
//!
//! Every variant starts with a little-endian `u32` tag; byte strings carry a
//! `u64` length and lists a `u64` count in front.

use vstd::prelude::*;

use crate::codec::{
    enc_blob, enc_list, enc_u32, lemma_blob_round_trip, lemma_list_round_trip,
    lemma_u32_round_trip, list_fits, parse_blob, parse_list, parse_u32, put_blob, put_list,
    put_u32, read_blob, read_list, read_u32, view_list,
};
use crate::errors::{FfiError, IpcError};

verus! {

/// A request; each payload is opaque to this layer and only carried.
pub enum IpcReq {
    /// Authorisation of an application (serialised request).
    Auth(Vec<u8>),
    /// Access to containers (serialised request).
    Containers(Vec<u8>),
    /// Bootstrap information for an unregistered client, with extra data.
    Unregistered(Vec<u8>),
    /// Sharing of mutable data, one serialised descriptor per item.
    ShareMData(Vec<Vec<u8>>),
}

/// A response, one kind per request kind.
pub enum IpcResp {
    /// Serialised granted credentials.
    Auth(Result<Vec<u8>, IpcError>),
    Containers(Result<(), IpcError>),
    /// The bootstrap configuration: its contact entries.
    Unregistered(Result<Vec<Vec<u8>>, IpcError>),
    ShareMData(Result<(), IpcError>),
}

/// The outermost message.
pub enum IpcMsg {
    Req { req_id: u32, req: IpcReq },
    Resp { req_id: u32, resp: IpcResp },
    /// The application's access was revoked; tied to no request.
    Revoked,
}

/// What a request holds.
pub enum ReqView {
    Auth(Seq<u8>),
    Containers(Seq<u8>),
    Unregistered(Seq<u8>),
    ShareMData(Seq<Seq<u8>>),
}

/// What a response holds.
pub enum RespView {
    Auth(Result<Seq<u8>, IpcError>),
    Containers(Result<(), IpcError>),
    Unregistered(Result<Seq<Seq<u8>>, IpcError>),
    ShareMData(Result<(), IpcError>),
}

/// What a message holds.
pub enum MsgView {
    Req(u32, ReqView),
    Resp(u32, RespView),
    Revoked,
}

impl View for IpcReq {
    type V = ReqView;

    open spec fn view(&self) -> ReqView {
        match self {
            IpcReq::Auth(p) => ReqView::Auth(p@),
            IpcReq::Containers(p) => ReqView::Containers(p@),
            IpcReq::Unregistered(p) => ReqView::Unregistered(p@),
            IpcReq::ShareMData(p) => ReqView::ShareMData(view_list(p@)),
        }
    }
}

impl View for IpcResp {
    type V = RespView;

    open spec fn view(&self) -> RespView {
        match self {
            IpcResp::Auth(r) => RespView::Auth(
                match r {
                    Ok(p) => Ok(p@),
                    Err(e) => Err(*e),
                },
            ),
            IpcResp::Containers(r) => RespView::Containers(*r),
            IpcResp::Unregistered(r) => RespView::Unregistered(
                match r {
                    Ok(p) => Ok(view_list(p@)),
                    Err(e) => Err(*e),
                },
            ),
            IpcResp::ShareMData(r) => RespView::ShareMData(*r),
        }
    }
}

impl View for IpcMsg {
    type V = MsgView;

    open spec fn view(&self) -> MsgView {
        match self {
            IpcMsg::Req { req_id, req } => MsgView::Req(*req_id, req@),
            IpcMsg::Resp { req_id, resp } => MsgView::Resp(*req_id, resp@),
            IpcMsg::Revoked => MsgView::Revoked,
        }
    }
}

/// The tag of each peer error.
pub open spec fn error_tag(e: IpcError) -> u32 {
    match e {
        IpcError::AuthDenied => 0,
        IpcError::ContainersDenied => 1,
        IpcError::ShareMDataDenied => 2,
        IpcError::AlreadyAuthorised => 3,
        IpcError::InvalidMsg => 4,
        IpcError::EncodeDecodeError => 5,
        IpcError::Unknown => 6,
    }
}

/// The peer error with tag `t`, if any.
pub open spec fn error_of_tag(t: u32) -> Option<IpcError> {
    if t == 0 {
        Some(IpcError::AuthDenied)
    } else if t == 1 {
        Some(IpcError::ContainersDenied)
    } else if t == 2 {
        Some(IpcError::ShareMDataDenied)
    } else if t == 3 {
        Some(IpcError::AlreadyAuthorised)
    } else if t == 4 {
        Some(IpcError::InvalidMsg)
    } else if t == 5 {
        Some(IpcError::EncodeDecodeError)
    } else if t == 6 {
        Some(IpcError::Unknown)
    } else {
        None
    }
}

/// The bytes of a request: tag, then payload.
pub open spec fn enc_req(r: ReqView) -> Seq<u8> {
    match r {
        ReqView::Auth(p) => enc_u32(0) + enc_blob(p),
        ReqView::Containers(p) => enc_u32(1) + enc_blob(p),
        ReqView::Unregistered(p) => enc_u32(2) + enc_blob(p),
        ReqView::ShareMData(p) => enc_u32(3) + enc_list(p),
    }
}

/// The bytes of a failed result: tag 1, then the error's tag.
pub open spec fn enc_err(e: IpcError) -> Seq<u8> {
    enc_u32(1) + enc_u32(error_tag(e))
}

/// The bytes of a result without payload.
pub open spec fn enc_unit_result(r: Result<(), IpcError>) -> Seq<u8> {
    match r {
        Ok(_) => enc_u32(0),
        Err(e) => enc_err(e),
    }
}

/// The bytes of a response: tag, then its result.
pub open spec fn enc_resp(r: RespView) -> Seq<u8> {
    match r {
        RespView::Auth(res) => enc_u32(0) + match res {
            Ok(p) => enc_u32(0) + enc_blob(p),
            Err(e) => enc_err(e),
        },
        RespView::Containers(res) => enc_u32(1) + enc_unit_result(res),
        RespView::Unregistered(res) => enc_u32(2) + match res {
            Ok(p) => enc_u32(0) + enc_list(p),
            Err(e) => enc_err(e),
        },
        RespView::ShareMData(res) => enc_u32(3) + enc_unit_result(res),
    }
}

/// The bytes of a message.
pub open spec fn enc_msg(m: MsgView) -> Seq<u8> {
    match m {
        MsgView::Req(id, r) => enc_u32(0) + enc_u32(id) + enc_req(r),
        MsgView::Resp(id, r) => enc_u32(1) + enc_u32(id) + enc_resp(r),
        MsgView::Revoked => enc_u32(2),
    }
}

/// Reads a request off the front of `b`.
pub open spec fn parse_req(b: Seq<u8>) -> Option<(ReqView, Seq<u8>)> {
    match parse_u32(b) {
        Some((t, r)) => if t == 3 {
            match parse_list(r) {
                Some((p, r2)) => Some((ReqView::ShareMData(p), r2)),
                None => None,
            }
        } else if t <= 2 {
            match parse_blob(r) {
                Some((p, r2)) => Some(
                    (
                        if t == 0 {
                            ReqView::Auth(p)
                        } else if t == 1 {
                            ReqView::Containers(p)
                        } else {
                            ReqView::Unregistered(p)
                        },
                        r2,
                    ),
                ),
                None => None,
            }
        } else {
            None
        },
        None => None,
    }
}

/// Reads the error part of a result whose tag was already read.
pub open spec fn parse_err(b: Seq<u8>) -> Option<(IpcError, Seq<u8>)> {
    match parse_u32(b) {
        Some((t, r)) => match error_of_tag(t) {
            Some(e) => Some((e, r)),
            None => None,
        },
        None => None,
    }
}

/// Reads a result without payload off the front of `b`.
pub open spec fn parse_unit_result(b: Seq<u8>) -> Option<(Result<(), IpcError>, Seq<u8>)> {
    match parse_u32(b) {
        Some((t, r)) => if t == 0 {
            Some((Ok(()), r))
        } else if t == 1 {
            match parse_err(r) {
                Some((e, r2)) => Some((Err(e), r2)),
                None => None,
            }
        } else {
            None
        },
        None => None,
    }
}

/// Reads a result carrying a byte string off the front of `b`.
pub open spec fn parse_blob_result(b: Seq<u8>) -> Option<(Result<Seq<u8>, IpcError>, Seq<u8>)> {
    match parse_u32(b) {
        Some((t, r)) => if t == 0 {
            match parse_blob(r) {
                Some((p, r2)) => Some((Ok(p), r2)),
                None => None,
            }
        } else if t == 1 {
            match parse_err(r) {
                Some((e, r2)) => Some((Err(e), r2)),
                None => None,
            }
        } else {
            None
        },
        None => None,
    }
}

/// Reads a result carrying a list of byte strings off the front of `b`.
pub open spec fn parse_list_result(b: Seq<u8>) -> Option<
    (Result<Seq<Seq<u8>>, IpcError>, Seq<u8>),
> {
    match parse_u32(b) {
        Some((t, r)) => if t == 0 {
            match parse_list(r) {
                Some((p, r2)) => Some((Ok(p), r2)),
                None => None,
            }
        } else if t == 1 {
            match parse_err(r) {
                Some((e, r2)) => Some((Err(e), r2)),
                None => None,
            }
        } else {
            None
        },
        None => None,
    }
}

/// Reads a response off the front of `b`.
pub open spec fn parse_resp(b: Seq<u8>) -> Option<(RespView, Seq<u8>)> {
    match parse_u32(b) {
        Some((t, r)) => if t == 0 {
            match parse_blob_result(r) {
                Some((x, r2)) => Some((RespView::Auth(x), r2)),
                None => None,
            }
        } else if t == 1 {
            match parse_unit_result(r) {
                Some((x, r2)) => Some((RespView::Containers(x), r2)),
                None => None,
            }
        } else if t == 2 {
            match parse_list_result(r) {
                Some((x, r2)) => Some((RespView::Unregistered(x), r2)),
                None => None,
            }
        } else if t == 3 {
            match parse_unit_result(r) {
                Some((x, r2)) => Some((RespView::ShareMData(x), r2)),
                None => None,
            }
        } else {
            None
        },
        None => None,
    }
}

/// The message that `b` holds, where `b` holds exactly one.
pub open spec fn parse_msg(b: Seq<u8>) -> Option<MsgView> {
    match parse_u32(b) {
        Some((t, r)) => if t == 2 {
            if r.len() == 0 {
                Some(MsgView::Revoked)
            } else {
                None
            }
        } else if t == 0 {
            match parse_u32(r) {
                Some((id, r2)) => match parse_req(r2) {
                    Some((q, r3)) => if r3.len() == 0 {
                        Some(MsgView::Req(id, q))
                    } else {
                        None
                    },
                    None => None,
                },
                None => None,
            }
        } else if t == 1 {
            match parse_u32(r) {
                Some((id, r2)) => match parse_resp(r2) {
                    Some((q, r3)) => if r3.len() == 0 {
                        Some(MsgView::Resp(id, q))
                    } else {
                        None
                    },
                    None => None,
                },
                None => None,
            }
        } else {
            None
        },
        None => None,
    }
}

/// Every byte string and list is short enough for its length prefix.
pub open spec fn req_fits(r: ReqView) -> bool {
    match r {
        ReqView::Auth(p) => p.len() <= u64::MAX,
        ReqView::Containers(p) => p.len() <= u64::MAX,
        ReqView::Unregistered(p) => p.len() <= u64::MAX,
        ReqView::ShareMData(p) => list_fits(p),
    }
}

/// Every byte string and list is short enough for its length prefix.
pub open spec fn resp_fits(r: RespView) -> bool {
    match r {
        RespView::Auth(Ok(p)) => p.len() <= u64::MAX,
        RespView::Unregistered(Ok(p)) => list_fits(p),
        _ => true,
    }
}

/// The message can be laid out: no length exceeds its prefix.
pub open spec fn msg_fits(m: MsgView) -> bool {
    match m {
        MsgView::Req(_, r) => req_fits(r),
        MsgView::Resp(_, r) => resp_fits(r),
        MsgView::Revoked => true,
    }
}

/// Reading an error back from its tag gives it.
pub proof fn lemma_err_round_trip(e: IpcError, tail: Seq<u8>)
    ensures
        parse_err(enc_u32(error_tag(e)) + tail) == Some((e, tail)),
{
    lemma_u32_round_trip(error_tag(e), tail);
}

/// Reading a request back from its bytes gives it, and leaves what follows.
pub proof fn lemma_req_round_trip(r: ReqView, tail: Seq<u8>)
    requires
        req_fits(r),
    ensures
        parse_req(enc_req(r) + tail) == Some((r, tail)),
{
    match r {
        ReqView::Auth(p) => {
            lemma_blob_round_trip(p, tail);
            lemma_u32_round_trip(0, enc_blob(p) + tail);
            assert(enc_req(r) + tail =~= enc_u32(0) + (enc_blob(p) + tail));
        },
        ReqView::Containers(p) => {
            lemma_blob_round_trip(p, tail);
            lemma_u32_round_trip(1, enc_blob(p) + tail);
            assert(enc_req(r) + tail =~= enc_u32(1) + (enc_blob(p) + tail));
        },
        ReqView::Unregistered(p) => {
            lemma_blob_round_trip(p, tail);
            lemma_u32_round_trip(2, enc_blob(p) + tail);
            assert(enc_req(r) + tail =~= enc_u32(2) + (enc_blob(p) + tail));
        },
        ReqView::ShareMData(p) => {
            lemma_list_round_trip(p, tail);
            lemma_u32_round_trip(3, enc_list(p) + tail);
            assert(enc_req(r) + tail =~= enc_u32(3) + (enc_list(p) + tail));
        },
    }
}

/// Reading a result without payload back from its bytes gives it.
pub proof fn lemma_unit_result_round_trip(res: Result<(), IpcError>, tail: Seq<u8>)
    ensures
        parse_unit_result(enc_unit_result(res) + tail) == Some((res, tail)),
{
    match res {
        Ok(u) => {
            lemma_u32_round_trip(0, tail);
            assert(u == ());
        },
        Err(e) => {
            let t = enc_u32(error_tag(e)) + tail;
            lemma_err_round_trip(e, tail);
            lemma_u32_round_trip(1, t);
            assert(enc_unit_result(res) + tail =~= enc_u32(1) + t);
        },
    }
}

/// Reading a result carrying a byte string back from its bytes gives it.
pub proof fn lemma_blob_result_round_trip(res: Result<Seq<u8>, IpcError>, tail: Seq<u8>)
    requires
        res is Ok ==> res->Ok_0.len() <= u64::MAX,
    ensures
        parse_blob_result(
            match res {
                Ok(p) => enc_u32(0) + enc_blob(p),
                Err(e) => enc_err(e),
            } + tail,
        ) == Some((res, tail)),
{
    match res {
        Ok(p) => {
            lemma_blob_round_trip(p, tail);
            lemma_u32_round_trip(0, enc_blob(p) + tail);
            assert(enc_u32(0) + enc_blob(p) + tail =~= enc_u32(0) + (enc_blob(p) + tail));
        },
        Err(e) => {
            lemma_err_round_trip(e, tail);
            lemma_u32_round_trip(1, enc_u32(error_tag(e)) + tail);
            assert(enc_err(e) + tail =~= enc_u32(1) + (enc_u32(error_tag(e)) + tail));
        },
    }
}

/// Reading a result carrying a list back from its bytes gives it.
pub proof fn lemma_list_result_round_trip(res: Result<Seq<Seq<u8>>, IpcError>, tail: Seq<u8>)
    requires
        res is Ok ==> list_fits(res->Ok_0),
    ensures
        parse_list_result(
            match res {
                Ok(p) => enc_u32(0) + enc_list(p),
                Err(e) => enc_err(e),
            } + tail,
        ) == Some((res, tail)),
{
    match res {
        Ok(p) => {
            lemma_list_round_trip(p, tail);
            lemma_u32_round_trip(0, enc_list(p) + tail);
            assert(enc_u32(0) + enc_list(p) + tail =~= enc_u32(0) + (enc_list(p) + tail));
        },
        Err(e) => {
            lemma_err_round_trip(e, tail);
            lemma_u32_round_trip(1, enc_u32(error_tag(e)) + tail);
            assert(enc_err(e) + tail =~= enc_u32(1) + (enc_u32(error_tag(e)) + tail));
        },
    }
}

/// Reading a response back from its bytes gives it, and leaves what follows.
pub proof fn lemma_resp_round_trip(r: RespView, tail: Seq<u8>)
    requires
        resp_fits(r),
    ensures
        parse_resp(enc_resp(r) + tail) == Some((r, tail)),
{
    match r {
        RespView::Auth(res) => {
            let body = match res {
                Ok(p) => enc_u32(0) + enc_blob(p),
                Err(e) => enc_err(e),
            };
            lemma_blob_result_round_trip(res, tail);
            lemma_u32_round_trip(0, body + tail);
            assert(enc_resp(r) + tail =~= enc_u32(0) + (body + tail));
        },
        RespView::Containers(res) => {
            lemma_unit_result_round_trip(res, tail);
            lemma_u32_round_trip(1, enc_unit_result(res) + tail);
            assert(enc_resp(r) + tail =~= enc_u32(1) + (enc_unit_result(res) + tail));
        },
        RespView::Unregistered(res) => {
            let body = match res {
                Ok(p) => enc_u32(0) + enc_list(p),
                Err(e) => enc_err(e),
            };
            lemma_list_result_round_trip(res, tail);
            lemma_u32_round_trip(2, body + tail);
            assert(enc_resp(r) + tail =~= enc_u32(2) + (body + tail));
        },
        RespView::ShareMData(res) => {
            lemma_unit_result_round_trip(res, tail);
            lemma_u32_round_trip(3, enc_unit_result(res) + tail);
            assert(enc_resp(r) + tail =~= enc_u32(3) + (enc_unit_result(res) + tail));
        },
    }
}

/// Reading back the bytes of a message gives the same message: same kind,
/// same request id, same payload.
pub proof fn lemma_msg_round_trip(m: MsgView)
    requires
        msg_fits(m),
    ensures
        parse_msg(enc_msg(m)) == Some(m),
{
    let empty = Seq::<u8>::empty();
    match m {
        MsgView::Req(id, r) => {
            lemma_req_round_trip(r, empty);
            assert(enc_req(r) + empty =~= enc_req(r));
            lemma_u32_round_trip(id, enc_req(r));
            lemma_u32_round_trip(0, enc_u32(id) + enc_req(r));
            assert(enc_msg(m) =~= enc_u32(0) + (enc_u32(id) + enc_req(r)));
        },
        MsgView::Resp(id, r) => {
            lemma_resp_round_trip(r, empty);
            assert(enc_resp(r) + empty =~= enc_resp(r));
            lemma_u32_round_trip(id, enc_resp(r));
            lemma_u32_round_trip(1, enc_u32(id) + enc_resp(r));
            assert(enc_msg(m) =~= enc_u32(1) + (enc_u32(id) + enc_resp(r)));
        },
        MsgView::Revoked => {
            lemma_u32_round_trip(2, empty);
            assert(enc_msg(m) =~= enc_u32(2) + empty);
        },
    }
}

fn ipc_error_tag(e: IpcError) -> (r: u32)
    ensures
        r == error_tag(e),
{
    match e {
        IpcError::AuthDenied => 0,
        IpcError::ContainersDenied => 1,
        IpcError::ShareMDataDenied => 2,
        IpcError::AlreadyAuthorised => 3,
        IpcError::InvalidMsg => 4,
        IpcError::EncodeDecodeError => 5,
        IpcError::Unknown => 6,
    }
}

fn ipc_error_of_tag(t: u32) -> (r: Option<IpcError>)
    ensures
        r == error_of_tag(t),
{
    if t == 0 {
        Some(IpcError::AuthDenied)
    } else if t == 1 {
        Some(IpcError::ContainersDenied)
    } else if t == 2 {
        Some(IpcError::ShareMDataDenied)
    } else if t == 3 {
        Some(IpcError::AlreadyAuthorised)
    } else if t == 4 {
        Some(IpcError::InvalidMsg)
    } else if t == 5 {
        Some(IpcError::EncodeDecodeError)
    } else if t == 6 {
        Some(IpcError::Unknown)
    } else {
        None
    }
}

fn put_err(out: &mut Vec<u8>, e: IpcError)
    ensures
        final(out)@ == old(out)@ + enc_err(e),
{
    put_u32(out, 1);
    put_u32(out, ipc_error_tag(e));
    proof {
        assert(out@ =~= old(out)@ + enc_err(e));
    }
}

fn put_unit_result(out: &mut Vec<u8>, r: &Result<(), IpcError>)
    ensures
        final(out)@ == old(out)@ + enc_unit_result(*r),
{
    match r {
        Ok(_) => put_u32(out, 0),
        Err(e) => put_err(out, *e),
    }
}

fn put_req(out: &mut Vec<u8>, r: &IpcReq)
    ensures
        final(out)@ == old(out)@ + enc_req(r@),
{
    match r {
        IpcReq::Auth(p) => {
            put_u32(out, 0);
            put_blob(out, p.as_slice());
        },
        IpcReq::Containers(p) => {
            put_u32(out, 1);
            put_blob(out, p.as_slice());
        },
        IpcReq::Unregistered(p) => {
            put_u32(out, 2);
            put_blob(out, p.as_slice());
        },
        IpcReq::ShareMData(p) => {
            put_u32(out, 3);
            put_list(out, p);
        },
    }
    proof {
        assert(out@ =~= old(out)@ + enc_req(r@));
    }
}

fn put_resp(out: &mut Vec<u8>, r: &IpcResp)
    ensures
        final(out)@ == old(out)@ + enc_resp(r@),
{
    match r {
        IpcResp::Auth(res) => {
            put_u32(out, 0);
            match res {
                Ok(p) => {
                    put_u32(out, 0);
                    put_blob(out, p.as_slice());
                },
                Err(e) => put_err(out, *e),
            }
        },
        IpcResp::Containers(res) => {
            put_u32(out, 1);
            put_unit_result(out, res);
        },
        IpcResp::Unregistered(res) => {
            put_u32(out, 2);
            match res {
                Ok(p) => {
                    put_u32(out, 0);
                    put_list(out, p);
                },
                Err(e) => put_err(out, *e),
            }
        },
        IpcResp::ShareMData(res) => {
            put_u32(out, 3);
            put_unit_result(out, res);
        },
    }
    proof {
        assert(out@ =~= old(out)@ + enc_resp(r@));
    }
}

/// The bytes of a message.
pub fn encode_msg_bytes(m: &IpcMsg) -> (r: Vec<u8>)
    ensures
        r@ == enc_msg(m@),
{
    let mut out: Vec<u8> = Vec::new();
    match m {
        IpcMsg::Req { req_id, req } => {
            put_u32(&mut out, 0);
            put_u32(&mut out, *req_id);
            put_req(&mut out, req);
        },
        IpcMsg::Resp { req_id, resp } => {
            put_u32(&mut out, 1);
            put_u32(&mut out, *req_id);
            put_resp(&mut out, resp);
        },
        IpcMsg::Revoked => {
            put_u32(&mut out, 2);
        },
    }
    proof {
        assert(out@ =~= enc_msg(m@));
    }
    out
}

fn read_err(b: &[u8], pos: usize) -> (r: Option<(IpcError, usize)>)
    requires
        pos <= b@.len(),
    ensures
        r is None <==> parse_err(b@.skip(pos as int)) is None,
        r is Some ==> pos <= r->Some_0.1 <= b@.len() && parse_err(b@.skip(pos as int)) == Some(
            (r->Some_0.0, b@.skip(r->Some_0.1 as int)),
        ),
{
    let (t, at) = read_u32(b, pos)?;
    let e = ipc_error_of_tag(t)?;
    Some((e, at))
}

fn read_req(b: &[u8], pos: usize) -> (r: Option<(IpcReq, usize)>)
    requires
        pos <= b@.len(),
    ensures
        r is None <==> parse_req(b@.skip(pos as int)) is None,
        r is Some ==> pos <= r->Some_0.1 <= b@.len() && parse_req(b@.skip(pos as int)) == Some(
            (r->Some_0.0@, b@.skip(r->Some_0.1 as int)),
        ),
{
    let (t, at) = read_u32(b, pos)?;
    if t == 3 {
        let (p, end) = read_list(b, at)?;
        Some((IpcReq::ShareMData(p), end))
    } else if t <= 2 {
        let (p, end) = read_blob(b, at)?;
        let q = if t == 0 {
            IpcReq::Auth(p)
        } else if t == 1 {
            IpcReq::Containers(p)
        } else {
            IpcReq::Unregistered(p)
        };
        Some((q, end))
    } else {
        None
    }
}

fn read_unit_result(b: &[u8], pos: usize) -> (r: Option<(Result<(), IpcError>, usize)>)
    requires
        pos <= b@.len(),
    ensures
        r is None <==> parse_unit_result(b@.skip(pos as int)) is None,
        r is Some ==> pos <= r->Some_0.1 <= b@.len() && parse_unit_result(b@.skip(pos as int))
            == Some((r->Some_0.0, b@.skip(r->Some_0.1 as int))),
{
    let (t, at) = read_u32(b, pos)?;
    if t == 0 {
        Some((Ok(()), at))
    } else if t == 1 {
        let (e, end) = read_err(b, at)?;
        Some((Err(e), end))
    } else {
        None
    }
}

fn read_resp(b: &[u8], pos: usize) -> (r: Option<(IpcResp, usize)>)
    requires
        pos <= b@.len(),
    ensures
        r is None <==> parse_resp(b@.skip(pos as int)) is None,
        r is Some ==> pos <= r->Some_0.1 <= b@.len() && parse_resp(b@.skip(pos as int)) == Some(
            (r->Some_0.0@, b@.skip(r->Some_0.1 as int)),
        ),
{
    let (t, at) = read_u32(b, pos)?;
    if t == 0 {
        let (rt, at2) = read_u32(b, at)?;
        if rt == 0 {
            let (p, end) = read_blob(b, at2)?;
            Some((IpcResp::Auth(Ok(p)), end))
        } else if rt == 1 {
            let (e, end) = read_err(b, at2)?;
            Some((IpcResp::Auth(Err(e)), end))
        } else {
            None
        }
    } else if t == 1 {
        let (res, end) = read_unit_result(b, at)?;
        Some((IpcResp::Containers(res), end))
    } else if t == 2 {
        let (rt, at2) = read_u32(b, at)?;
        if rt == 0 {
            let (p, end) = read_list(b, at2)?;
            Some((IpcResp::Unregistered(Ok(p)), end))
        } else if rt == 1 {
            let (e, end) = read_err(b, at2)?;
            Some((IpcResp::Unregistered(Err(e)), end))
        } else {
            None
        }
    } else if t == 3 {
        let (res, end) = read_unit_result(b, at)?;
        Some((IpcResp::ShareMData(res), end))
    } else {
        None
    }
}

/// The message that `b` holds; `InvalidMessage` where `b` is not exactly
/// the bytes of one message.
pub fn decode_msg_bytes(b: &[u8]) -> (r: Result<IpcMsg, FfiError>)
    ensures
        r is Ok <==> parse_msg(b@) is Some,
        r is Ok ==> r->Ok_0@ == parse_msg(b@)->Some_0,
        r is Err ==> r->Err_0 == FfiError::InvalidMessage,
{
    proof {
        assert(b@.skip(0) =~= b@);
    }
    let (t, at) = match read_u32(b, 0) {
        Some(x) => x,
        None => {
            return Err(FfiError::InvalidMessage);
        },
    };
    if t == 2 {
        if at == b.len() {
            Ok(IpcMsg::Revoked)
        } else {
            Err(FfiError::InvalidMessage)
        }
    } else if t == 0 {
        let (req_id, at2) = match read_u32(b, at) {
            Some(x) => x,
            None => {
                return Err(FfiError::InvalidMessage);
            },
        };
        match read_req(b, at2) {
            Some((req, end)) => if end == b.len() {
                Ok(IpcMsg::Req { req_id, req })
            } else {
                Err(FfiError::InvalidMessage)
            },
            None => Err(FfiError::InvalidMessage),
        }
    } else if t == 1 {
        let (req_id, at2) = match read_u32(b, at) {
            Some(x) => x,
            None => {
                return Err(FfiError::InvalidMessage);
            },
        };
        match read_resp(b, at2) {
            Some((resp, end)) => if end == b.len() {
                Ok(IpcMsg::Resp { req_id, resp })
            } else {
                Err(FfiError::InvalidMessage)
            },
            None => Err(FfiError::InvalidMessage),
        }
    } else {
        Err(FfiError::InvalidMessage)
    }
}

} // verus!
