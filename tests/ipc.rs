use safe_ipc::errors::{FfiError, IpcError};
use safe_ipc::ipc::{
    decode_ipc_msg, decode_msg, encode_auth_req, encode_containers_req, encode_msg,
    encode_share_mdata_req, encode_unregistered_req, Dispatch,
};
use safe_ipc::ipc_msg::{decode_msg_bytes, encode_msg_bytes, IpcMsg, IpcReq, IpcResp};
use safe_ipc::req_id::ReqIdGen;

fn expect_req(encoded: &str) -> (u32, IpcReq) {
    match decode_msg(encoded) {
        Ok(IpcMsg::Req { req_id, req }) => (req_id, req),
        Ok(_) => panic!("Unexpected message kind"),
        Err(e) => panic!("Unexpected {:?}", e),
    }
}

fn encode_resp(req_id: u32, resp: IpcResp) -> String {
    encode_msg(&IpcMsg::Resp { req_id, resp })
}

#[test]
fn encode_auth_req_basics() {
    let mut ids = ReqIdGen::new(7);
    let req = b"app-id:net.example.app;app_container:false".to_vec();
    let (req_id, encoded) = encode_auth_req(&mut ids, req.clone()).unwrap();
    let (decoded_req_id, decoded_req) = expect_req(&encoded);
    assert_eq!(decoded_req_id, req_id);
    match decoded_req {
        IpcReq::Auth(p) => assert_eq!(p, req),
        _ => panic!("Unexpected request kind"),
    }
}

#[test]
fn encode_containers_req_basics() {
    let mut ids = ReqIdGen::new(100);
    let req = b"containers:_public=Read".to_vec();
    let (req_id, encoded) = encode_containers_req(&mut ids, req.clone()).unwrap();
    let (decoded_req_id, decoded_req) = expect_req(&encoded);
    assert_eq!(decoded_req_id, req_id);
    match decoded_req {
        IpcReq::Containers(p) => assert_eq!(p, req),
        _ => panic!("Unexpected request kind"),
    }
}

#[test]
fn encode_unregistered_req_basics() {
    let mut ids = ReqIdGen::new(0);
    let test_data = vec![1u8, 10];
    let (req_id, encoded) = encode_unregistered_req(&mut ids, test_data.clone()).unwrap();
    let (decoded_req_id, decoded_req) = expect_req(&encoded);
    assert_eq!(decoded_req_id, req_id);
    match decoded_req {
        IpcReq::Unregistered(extra_data) => assert_eq!(extra_data, vec![1u8, 10]),
        _ => panic!("Unexpected request kind"),
    }
}

#[test]
fn encode_share_mdata_basics() {
    let mut ids = ReqIdGen::new(u32::MAX);
    let mdata = vec![vec![9u8; 32], b"type_tag:15000;perms:Insert,Update".to_vec()];
    let (req_id, encoded) = encode_share_mdata_req(&mut ids, mdata.clone()).unwrap();
    assert_eq!(req_id, u32::MAX);
    let (decoded_req_id, decoded_req) = expect_req(&encoded);
    assert_eq!(decoded_req_id, req_id);
    match decoded_req {
        IpcReq::ShareMData(p) => assert_eq!(p, mdata),
        _ => panic!("Unexpected request kind"),
    }
}

#[test]
fn decode_ipc_msg_with_auth_granted() {
    let req_id = 1234u32;
    let auth_granted = b"app_keys;bootstrap_config;access_container".to_vec();
    let encoded = encode_resp(req_id, IpcResp::Auth(Ok(auth_granted.clone())));
    match decode_ipc_msg(&encoded) {
        Dispatch::AuthGranted { req_id: id, auth_granted: granted } => {
            assert_eq!(id, req_id);
            assert_eq!(granted, auth_granted);
        }
        _ => panic!("Unexpected outcome"),
    }
}

#[test]
fn decode_ipc_msg_with_containers_granted() {
    let req_id = 77u32;
    let encoded = encode_resp(req_id, IpcResp::Containers(Ok(())));
    match decode_ipc_msg(&encoded) {
        Dispatch::ContainersGranted { req_id: id } => assert_eq!(id, req_id),
        _ => panic!("Unexpected outcome"),
    }
}

#[test]
fn decode_ipc_msg_with_unregistered_granted() {
    let req_id = 9u32;
    let encoded = encode_resp(req_id, IpcResp::Unregistered(Ok(Vec::new())));
    match decode_ipc_msg(&encoded) {
        Dispatch::UnregisteredGranted { req_id: id, serialised_cfg } => {
            assert_eq!(id, req_id);
            assert_eq!(serialised_cfg, vec![0u8; 8]);
        }
        _ => panic!("Unexpected outcome"),
    }
}

#[test]
fn decode_ipc_msg_with_share_mdata_granted() {
    let req_id = 4000000000u32;
    let encoded = encode_resp(req_id, IpcResp::ShareMData(Ok(())));
    match decode_ipc_msg(&encoded) {
        Dispatch::ShareMDataGranted { req_id: id } => assert_eq!(id, req_id),
        _ => panic!("Unexpected outcome"),
    }
}

#[test]
fn request_ids_are_distinct() {
    let mut ids = ReqIdGen::new(u32::MAX - 2);
    let mut seen: Vec<u32> = Vec::new();
    for i in 0..6u8 {
        let (req_id, _) = encode_unregistered_req(&mut ids, vec![i]).unwrap();
        assert!(!seen.contains(&req_id));
        seen.push(req_id);
    }
    assert_eq!(seen, vec![u32::MAX - 2, u32::MAX - 1, u32::MAX, 0, 1, 2]);
}

#[test]
fn containers_refusal_reaches_only_the_error_outcome() {
    let encoded = encode_resp(55, IpcResp::Containers(Err(IpcError::ContainersDenied)));
    match decode_ipc_msg(&encoded) {
        Dispatch::Error { req_id, error } => {
            assert_eq!(req_id, 55);
            assert_eq!(error, FfiError::Ipc(IpcError::ContainersDenied));
            assert_eq!(error.error_code(), -101);
        }
        _ => panic!("Unexpected outcome"),
    }
}

#[test]
fn auth_refusal_keeps_request_id() {
    let encoded = encode_resp(8, IpcResp::Auth(Err(IpcError::AuthDenied)));
    match decode_ipc_msg(&encoded) {
        Dispatch::Error { req_id, error } => {
            assert_eq!(req_id, 8);
            assert_eq!(error, FfiError::Ipc(IpcError::AuthDenied));
        }
        _ => panic!("Unexpected outcome"),
    }
}

#[test]
fn unregistered_config_is_reserialised() {
    let cfg = vec![vec![1u8, 2], vec![3u8]];
    let encoded = encode_resp(3, IpcResp::Unregistered(Ok(cfg)));
    match decode_ipc_msg(&encoded) {
        Dispatch::UnregisteredGranted { req_id, serialised_cfg } => {
            assert_eq!(req_id, 3);
            let mut expected = vec![2u8, 0, 0, 0, 0, 0, 0, 0];
            expected.extend_from_slice(&[2, 0, 0, 0, 0, 0, 0, 0, 1, 2]);
            expected.extend_from_slice(&[1, 0, 0, 0, 0, 0, 0, 0, 3]);
            assert_eq!(serialised_cfg, expected);
        }
        _ => panic!("Unexpected outcome"),
    }
}

#[test]
fn revoked_is_dispatched() {
    let encoded = encode_msg(&IpcMsg::Revoked);
    assert_eq!(encoded, "AgAAAA");
    assert!(matches!(decode_ipc_msg(&encoded), Dispatch::Revoked));
}

#[test]
fn request_in_place_of_response_is_invalid() {
    let encoded = encode_msg(&IpcMsg::Req { req_id: 5, req: IpcReq::Unregistered(vec![1]) });
    match decode_ipc_msg(&encoded) {
        Dispatch::Error { req_id, error } => {
            assert_eq!(req_id, 0);
            assert_eq!(error, FfiError::InvalidMessage);
        }
        _ => panic!("Unexpected outcome"),
    }
}

#[test]
fn malformed_text_is_invalid() {
    for text in ["", "!!!not base64!!!", "AgAAAAA", "AwAAAA"] {
        match decode_ipc_msg(text) {
            Dispatch::Error { req_id, error } => {
                assert_eq!(req_id, 0);
                assert_eq!(error, FfiError::InvalidMessage);
            }
            _ => panic!("Unexpected outcome for {:?}", text),
        }
    }
}

#[test]
fn message_bytes_layout() {
    let msg = IpcMsg::Req { req_id: 0x01020304, req: IpcReq::Unregistered(vec![1, 10]) };
    let bytes = encode_msg_bytes(&msg);
    assert_eq!(
        bytes,
        vec![0, 0, 0, 0, 4, 3, 2, 1, 2, 0, 0, 0, 2, 0, 0, 0, 0, 0, 0, 0, 1, 10]
    );
    let mut trailing = bytes.clone();
    trailing.push(0);
    assert_eq!(decode_msg_bytes(&trailing).err(), Some(FfiError::InvalidMessage));
    let truncated = &bytes[..bytes.len() - 1];
    assert_eq!(decode_msg_bytes(truncated).err(), Some(FfiError::InvalidMessage));
    match decode_msg_bytes(&bytes) {
        Ok(IpcMsg::Req { req_id, req: IpcReq::Unregistered(d) }) => {
            assert_eq!(req_id, 0x01020304);
            assert_eq!(d, vec![1, 10]);
        }
        _ => panic!("Unexpected decode"),
    }
}

#[test]
fn error_codes_and_descriptions() {
    assert_eq!(FfiError::EncodingError.error_code(), -1);
    assert_eq!(FfiError::InvalidMessage.error_code(), -2);
    assert_eq!(FfiError::InvalidHandle.error_code(), -3);
    assert_eq!(FfiError::NoSuchEntry.error_code(), -4);
    assert_eq!(FfiError::Disconnected.error_code(), -5);
    assert_eq!(FfiError::InternalFault.error_code(), -6);
    let (code, description) = FfiError::NoSuchEntry.to_pair();
    assert_eq!(code, -4);
    assert_eq!(description, "no such entry");
}

#[test]
fn descriptions_are_given_for_every_error() {
    assert_eq!(FfiError::InvalidHandle.description(), "invalid object handle");
    assert_eq!(FfiError::Ipc(IpcError::AuthDenied).description(), "authorisation denied");
    let (code, description) = FfiError::Disconnected.to_pair();
    assert_eq!(code, -5);
    assert_eq!(description, "the worker is no longer running");
}
