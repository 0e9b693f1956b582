use matter::case::{Case, CaseSigma1Action, CaseState};
use matter::error::{Error, SCStatusCodes};
use matter::fabric::{get_compressed_id, Cert, Fabric, FabricMgr, KeyPair};
use matter::session::SessionMode;
use matter::tlv::{encode, TLVElement, TLVValue, TagType};

fn ctx(tag: u8, value: TLVValue) -> TLVElement {
    TLVElement { tag: TagType::Context(tag), value }
}

fn test_fabric() -> Fabric {
    let mut root_pub = vec![4u8; 65];
    root_pub[1] = 0xaa;
    let root_ca = Cert::new(vec![0xc0; 40], 0x10, 0, root_pub);
    let icac = Cert::new(vec![0xc1; 40], 0x10, 0, vec![4u8; 65]);
    let noc = Cert::new(vec![0xc2; 40], 0x10, 0x2222, vec![4u8; 65]);
    let ipk = vec![0x11u8; 16];
    Fabric::new(KeyPair::dummy(), root_ca, icac, noc, ipk).unwrap()
}

#[test]
fn test_compressed_id_deterministic() {
    let f1 = test_fabric();
    let f2 = test_fabric();
    assert_eq!(f1.compressed_id, f2.compressed_id);
    assert_eq!(f1.compressed_id.len(), 8);
    // And it really is the HKDF derivation over the root key and fabric id.
    assert_eq!(f1.compressed_id, get_compressed_id(f1.root_ca.get_pubkey(), f1.fabric_id));
    // A different fabric id gives a different compressed id.
    let other = get_compressed_id(f1.root_ca.get_pubkey(), 0x11);
    assert_ne!(f1.compressed_id, other);
}

#[test]
fn test_fabric_mgr_add_and_overflow() {
    let mut mgr = FabricMgr::new().unwrap();
    let i1 = mgr.add(test_fabric()).unwrap();
    assert_eq!(i1, 1);
    let i2 = mgr.add(test_fabric()).unwrap();
    assert_eq!(i2, 2);
    assert!(matches!(mgr.add(test_fabric()), Err(Error::NoSpace)));
}

#[test]
fn test_dest_id_match_and_corruption() {
    // A Sigma1 with the correct destination id selects the fabric; one
    // corrupted byte yields no shared trust roots.
    let mut mgr = FabricMgr::new().unwrap();
    mgr.add(test_fabric()).unwrap();
    let f = test_fabric();
    let random = [0x7du8; 32];
    let dest = f.compute_dest_id(&random);
    assert_eq!(dest.len(), 32);
    assert_eq!(mgr.match_dest_id(&random, &dest).unwrap(), 1);
    let mut bad = dest.clone();
    bad[0] ^= 1;
    assert!(mgr.match_dest_id(&random, &bad).is_err());
}

fn sigma1_bytes(random: &[u8], sessid: u16, dest: &[u8], peer_pub: &[u8]) -> Vec<u8> {
    let e = TLVElement {
        tag: TagType::Anonymous,
        value: TLVValue::Struct(vec![
            ctx(1, TLVValue::Str8(random.to_vec())),
            ctx(2, TLVValue::U16(sessid)),
            ctx(3, TLVValue::Str8(dest.to_vec())),
            ctx(4, TLVValue::Str8(peer_pub.to_vec())),
        ]),
    };
    encode(&e)
}

#[test]
fn test_case_sigma1_and_sigma3() {
    let mut mgr = FabricMgr::new().unwrap();
    mgr.add(test_fabric()).unwrap();
    let f = test_fabric();
    let case = Case::new();

    let random = [0x7du8; 32];
    let dest = f.compute_dest_id(&random);
    let peer_pub = [0x04u8; 65];
    let rx1 = sigma1_bytes(&random, 9, &dest, &peer_pub);
    let our_pub = [0x05u8; 65];
    let shared = [0x06u8; 32];
    let mut session = match case.handle_casesigma1(&mgr, &rx1, 0x300, &our_pub, &shared).unwrap() {
        CaseSigma1Action::Session(s) => s,
        CaseSigma1Action::Status(_) => panic!("destination id should have matched"),
    };
    assert_eq!(session.local_fabric_idx, 1);
    assert_eq!(session.peer_sessid, 9);
    assert_eq!(session.tt, rx1);
    assert_eq!(session.state, CaseState::Sigma1Rx);

    // A corrupted destination id is refused with no shared trust roots.
    let mut bad = dest.clone();
    bad[5] ^= 0x80;
    let rx_bad = sigma1_bytes(&random, 9, &bad, &peer_pub);
    match case.handle_casesigma1(&mgr, &rx_bad, 0x301, &our_pub, &shared).unwrap() {
        CaseSigma1Action::Status(st) => assert_eq!(st, SCStatusCodes::NoSharedTrustRoots),
        CaseSigma1Action::Session(_) => panic!("corrupted destination id matched"),
    }

    // Sigma2 message assembly folds the sent bytes into the transcript.
    let sig = [0x77u8; 64];
    let tbe = case.get_sigma2_tbe(&[0xc2; 40], &[0xc1; 40], &sig, &[0x88; 16]).unwrap();
    assert!(!tbe.is_empty());
    let tt_before = session.tt.len();
    let msg2 = case.build_sigma2_msg(&mut session, &[0x2au8; 32], &tbe).unwrap();
    assert_eq!(session.tt.len(), tt_before + msg2.len());

    // Sigma3 with a tampered signature: invalid-parameter, no session.
    let noc = Cert::new(vec![0xc2; 40], 0x10, 0x9999, vec![4u8; 65]);
    let icac = Cert::new(vec![0xc1; 40], 0x10, 0, vec![4u8; 65]);
    let rx3 = vec![0x15, 0x18];
    let out = case
        .handle_casesigma3(&mgr, &mut session, &rx3, &noc, &icac, true, false)
        .unwrap();
    assert_eq!(out.status, SCStatusCodes::InvalidParameter);
    assert!(out.clone_data.is_none());

    // A second Sigma3 on the same exchange is refused outright.
    assert!(matches!(
        case.handle_casesigma3(&mgr, &mut session, &rx3, &noc, &icac, true, true),
        Err(Error::Invalid)
    ));

    // The untampered run succeeds and derives the session keys.
    let mut session2 = match case.handle_casesigma1(&mgr, &rx1, 0x302, &our_pub, &shared).unwrap()
    {
        CaseSigma1Action::Session(s) => s,
        CaseSigma1Action::Status(_) => panic!("destination id should have matched"),
    };
    let out2 = case
        .handle_casesigma3(&mgr, &mut session2, &rx3, &noc, &icac, true, true)
        .unwrap();
    assert_eq!(out2.status, SCStatusCodes::SessionEstablishmentSuccess);
    let cd = out2.clone_data.expect("session installed on success");
    assert_eq!(cd.mode, SessionMode::Case(1));
    assert_eq!(cd.peer_sess_id, 9);
    assert_eq!(cd.local_sess_id, 0x302);
    assert_eq!(cd.enc_key.len(), 16);
    assert_eq!(cd.dec_key.len(), 16);
    assert_eq!(cd.att_challenge.len(), 16);

    // A wrong-fabric certificate also fails cleanly.
    let mut session3 = match case.handle_casesigma1(&mgr, &rx1, 0x303, &our_pub, &shared).unwrap()
    {
        CaseSigma1Action::Session(s) => s,
        CaseSigma1Action::Status(_) => panic!("destination id should have matched"),
    };
    let alien_noc = Cert::new(vec![0xc2; 40], 0x99, 0x9999, vec![4u8; 65]);
    let out3 = case
        .handle_casesigma3(&mgr, &mut session3, &rx3, &alien_noc, &icac, true, true)
        .unwrap();
    assert_eq!(out3.status, SCStatusCodes::InvalidParameter);
    assert!(out3.clone_data.is_none());
}

#[test]
fn test_sigma3_tbe_parse() {
    let case = Case::new();
    let tbe = case.get_sigma2_tbe(&[1, 2, 3], &[4, 5], &[6; 64], &[7; 16]).unwrap();
    let (noc, icac, sig) = Case::parse_sigma3_tbe(&tbe).unwrap();
    assert_eq!(noc, vec![1, 2, 3]);
    assert_eq!(icac, vec![4, 5]);
    assert_eq!(sig, vec![6; 64]);
    assert!(Case::parse_sigma3_tbe(&[0x15, 0x18]).is_err());
}

#[test]
fn test_sigma_keys_depend_on_transcript() {
    let case = Case::new();
    let ipk = [0x11u8; 16];
    let mut s1 = matter::case::CaseSession::new(1, 2).unwrap();
    let mut s2 = matter::case::CaseSession::new(1, 2).unwrap();
    s1.tt = vec![1, 2, 3];
    s2.tt = vec![1, 2, 4];
    let k1 = case.get_sigma3_key(&ipk, &s1);
    let k2 = case.get_sigma3_key(&ipk, &s2);
    assert_eq!(k1.len(), 16);
    assert_ne!(k1, k2);
    let k3 = case.get_sigma2_key(&ipk, &[0x2a; 32], &s1);
    assert_eq!(k3.len(), 16);
    assert_ne!(k3, k1);
}
