use matter::error::Error;
use matter::pake::{PakeState, PbkdfAction, PAKE};
use matter::session::{Session, SessionMgr, SessionMode};
use matter::tlv::{encode, TLVElement, TLVValue, TagType};

fn ctx(tag: u8, value: TLVValue) -> TLVElement {
    TLVElement { tag: TagType::Context(tag), value }
}

fn pbkdf_req(random: &[u8], sessid: u16, passcode_id: u16, has_params: bool) -> Vec<u8> {
    let e = TLVElement {
        tag: TagType::Anonymous,
        value: TLVValue::Struct(vec![
            ctx(1, TLVValue::Str8(random.to_vec())),
            ctx(2, TLVValue::U16(sessid)),
            ctx(3, TLVValue::U16(passcode_id)),
            ctx(4, TLVValue::Bool(has_params)),
        ]),
    };
    encode(&e)
}

fn pake_param(tag1: &[u8]) -> Vec<u8> {
    let e = TLVElement {
        tag: TagType::Anonymous,
        value: TLVValue::Struct(vec![ctx(1, TLVValue::Str8(tag1.to_vec()))]),
    };
    encode(&e)
}

#[test]
fn test_pase_disabled_refused() {
    let mut pake = PAKE::new();
    let req = pbkdf_req(&[7u8; 32], 5, 0, false);
    match pake.handle_pbkdfparamrequest(1, 10, &req, 100, 0).unwrap() {
        PbkdfAction::Status(rep) => {
            // A failure report with the invalid-parameter code.
            assert_eq!(rep, vec![1, 0, 0, 0, 0, 0, 2, 0]);
        }
        _ => panic!("expected a status report"),
    }
}

#[test]
fn test_pase_happy_path() {
    // Enable PASE with the default passcode 123456, a 16-byte random salt
    // and iteration count 2000, then drive the three rounds with the
    // verifier outcomes supplied.
    let mut pake = PAKE::new();
    assert_eq!(pake.passwd, 123456);
    assert_eq!(pake.salt.len(), 16);
    pake.enable();

    let req = pbkdf_req(&[7u8; 32], 0x0005, 0, false);
    let resp = match pake.handle_pbkdfparamrequest(1, 10, &req, 0x0100, 0).unwrap() {
        PbkdfAction::Response(r) => r,
        _ => panic!("expected admission"),
    };
    // The response echoes the initiator random and carries our session id
    // and the PBKDF parameters.
    let (root, _) = matter::tlv::decode_element(&resp, 0).unwrap();
    assert_eq!(root.find_tag(1).unwrap().get_slice().unwrap(), [7u8; 32]);
    assert_eq!(root.find_tag(2).unwrap().get_slice().unwrap().len(), 32);
    assert_eq!(root.find_tag(3).unwrap().get_u16().unwrap(), 0x0100);
    let params = root.find_tag(4).unwrap();
    assert_eq!(params.find_tag(1).unwrap().get_u32().unwrap(), 2000);
    assert_eq!(params.find_tag(2).unwrap().get_slice().unwrap(), pake.salt.as_slice());

    // PAKE1: the SPAKE2+ verifier's share and confirmation come from outside.
    let pake1 = pake_param(&[0x41; 65]);
    let p_b = [0x51u8; 65];
    let c_b = [0x52u8; 32];
    let resp2 = pake.handle_pasepake1(1, 10, &pake1, &p_b, &c_b).unwrap();
    let (root2, _) = matter::tlv::decode_element(&resp2, 0).unwrap();
    assert_eq!(root2.find_tag(1).unwrap().get_slice().unwrap(), p_b);
    assert_eq!(root2.find_tag(2).unwrap().get_slice().unwrap(), c_b);

    // PAKE3: the confirmation verified; the shared secret comes from outside.
    let pake3 = pake_param(&[0x61; 32]);
    let ke = [0x33u8; 32];
    let out = pake.handle_pasepake3(1, 10, &pake3, true, &ke).unwrap();
    // A success status report was emitted.
    assert_eq!(out.report, vec![0, 0, 0, 0, 0, 0, 0, 0]);
    let cd = out.clone_data.expect("session installed on success");
    assert_eq!(cd.mode, SessionMode::Pase);
    assert_eq!(cd.peer_sess_id, 0x0005);
    assert_eq!(cd.local_sess_id, 0x0100);
    assert_eq!(cd.enc_key.len(), 16);
    assert_eq!(cd.dec_key.len(), 16);
    assert_eq!(cd.att_challenge.len(), 16);
    // The key split matches HKDF(salt = none, ikm = Ke, info = "SessionKeys").
    let mut keys = vec![0u8; 48];
    matter::crypto::hkdf_sha256(&[], &ke, b"SessionKeys", &mut keys);
    assert_eq!(cd.dec_key, keys[0..16].to_vec());
    assert_eq!(cd.enc_key, keys[16..32].to_vec());
    assert_eq!(cd.att_challenge, keys[32..48].to_vec());

    // The session store installs it as a PASE session.
    let mut mgr = SessionMgr::new();
    mgr.sessions.push(Session::new_unencrypted(10));
    let idx = mgr.clone_session(0, &cd).unwrap();
    assert_eq!(mgr.sessions[idx].mode, SessionMode::Pase);

    // PASE is disabled after the handshake.
    assert!(!pake.enabled);
    assert!(matches!(pake.state, PakeState::Idle));
}

#[test]
fn test_pase_failed_verification_installs_nothing() {
    let mut pake = PAKE::new();
    pake.enable();
    let req = pbkdf_req(&[7u8; 32], 5, 0, true);
    match pake.handle_pbkdfparamrequest(1, 10, &req, 0x0100, 0).unwrap() {
        PbkdfAction::Response(_) => {}
        _ => panic!("expected admission"),
    }
    let pake3 = pake_param(&[0x61; 32]);
    let out = pake.handle_pasepake3(1, 10, &pake3, false, &[]).unwrap();
    assert_eq!(out.report, vec![1, 0, 0, 0, 0, 0, 2, 0]);
    assert!(out.clone_data.is_none());
}

#[test]
fn test_pase_busy() {
    // Two parameter requests arrive 10 ms apart from different exchanges;
    // the second is answered busy with the little-endian retry hint and the
    // first session is untouched.
    let mut pake = PAKE::new();
    pake.enable();
    let req1 = pbkdf_req(&[1u8; 32], 5, 0, true);
    match pake.handle_pbkdfparamrequest(1, 10, &req1, 0x0100, 0).unwrap() {
        PbkdfAction::Response(_) => {}
        _ => panic!("expected admission"),
    }
    let req2 = pbkdf_req(&[2u8; 32], 6, 0, true);
    match pake.handle_pbkdfparamrequest(2, 11, &req2, 0x0101, 10).unwrap() {
        PbkdfAction::Status(rep) => {
            assert_eq!(rep, vec![1, 0, 0, 0, 0, 0, 4, 0, 0xf4, 0x01]);
        }
        _ => panic!("expected busy"),
    }
    // The first handshake still answers.
    let pake1 = pake_param(&[0x41; 65]);
    assert!(pake.handle_pasepake1(1, 10, &pake1, &[0x51; 65], &[0x52; 32]).is_ok());
}

#[test]
fn test_pase_expiry_admits_new_request() {
    // Arm a PASE session, advance the clock past the 60 s discard timeout:
    // a new parameter request is admitted.
    let mut pake = PAKE::new();
    pake.enable();
    let req1 = pbkdf_req(&[1u8; 32], 5, 0, true);
    match pake.handle_pbkdfparamrequest(1, 10, &req1, 0x0100, 0).unwrap() {
        PbkdfAction::Response(_) => {}
        _ => panic!("expected admission"),
    }
    let req2 = pbkdf_req(&[2u8; 32], 6, 0, true);
    match pake.handle_pbkdfparamrequest(2, 11, &req2, 0x0101, 61_000).unwrap() {
        PbkdfAction::Response(_) => {}
        _ => panic!("expected the stale session discarded and the new one admitted"),
    }
}

#[test]
fn test_pase_wrong_exchange_refused() {
    let mut pake = PAKE::new();
    pake.enable();
    let req = pbkdf_req(&[1u8; 32], 5, 0, true);
    match pake.handle_pbkdfparamrequest(1, 10, &req, 0x0100, 0).unwrap() {
        PbkdfAction::Response(_) => {}
        _ => panic!("expected admission"),
    }
    let pake1 = pake_param(&[0x41; 65]);
    assert!(matches!(
        pake.handle_pasepake1(2, 10, &pake1, &[0x51; 65], &[0x52; 32]),
        Err(Error::InvalidState)
    ));
    // The guard is idle now, so a further round reports the idle error.
    assert!(matches!(
        pake.handle_pasepake1(1, 10, &pake1, &[0x51; 65], &[0x52; 32]),
        Err(Error::InvalidSignature)
    ));
}

#[test]
fn test_pase_nonzero_passcode_id_refused() {
    let mut pake = PAKE::new();
    pake.enable();
    let req = pbkdf_req(&[1u8; 32], 5, 1, true);
    assert!(matches!(
        pake.handle_pbkdfparamrequest(1, 10, &req, 0x0100, 0),
        Err(Error::Invalid)
    ));
}
