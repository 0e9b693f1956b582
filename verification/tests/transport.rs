use matter::exchange::{Exchange, ExchangeRole};
use matter::headers::{msg_nonce, PlainHdr, ProtoHdr};
use matter::mrp::{before_msg_send, on_msg_recv};
use matter::parsebuf::ParseBuf;
use matter::session::{CloneData, Session, SessionMgr, SessionMode};

fn plain(src: Option<u64>, dst: Option<u64>) -> PlainHdr {
    PlainHdr { sess_id: 0x1234, sec_flags: 0, ctr: 0xdeadbeef, src_nodeid: src, dst_nodeid: dst }
}

#[test]
fn test_plain_hdr_round_trip() {
    for h in [
        plain(None, None),
        plain(Some(0x1122334455667788), None),
        plain(None, Some(0xa1a2a3a4a5a6a7a8)),
        plain(Some(1), Some(2)),
    ] {
        let mut bytes: Vec<u8> = Vec::new();
        h.serialize(&mut bytes);
        bytes.push(0x5a); // trailing payload survives
        let mut pb = ParseBuf::new(bytes.as_slice(), bytes.len());
        let parsed = PlainHdr::parse(&mut pb).unwrap();
        assert_eq!(parsed, h);
        assert_eq!(pb.as_slice(), [0x5a]);
    }
}

#[test]
fn test_proto_hdr_round_trip() {
    let h = ProtoHdr {
        opcode: 0x20,
        exch_id: 0x4242,
        proto_id: 0x0000,
        initiator: true,
        reliable: true,
        vendor_id: Some(0xfff1),
        ack_ctr: Some(7),
    };
    let mut bytes: Vec<u8> = Vec::new();
    h.serialize(&mut bytes);
    let mut pb = ParseBuf::new(bytes.as_slice(), bytes.len());
    let parsed = ProtoHdr::parse(&mut pb).unwrap();
    assert_eq!(parsed, h);
}

#[test]
fn test_truncated_plain_hdr_dropped() {
    let bytes = [0x04u8, 0x34, 0x12, 0x00, 0xef]; // says it has a source id, hasn't
    let mut pb = ParseBuf::new(&bytes, bytes.len());
    assert!(PlainHdr::parse(&mut pb).is_err());
}

#[test]
fn test_nonce_layout() {
    let h = plain(Some(0x0807060504030201), None);
    let n = msg_nonce(&h);
    assert_eq!(n.len(), 13);
    assert_eq!(n[0], 0);
    assert_eq!(&n[1..5], &[0xef, 0xbe, 0xad, 0xde]);
    assert_eq!(&n[5..13], &[1, 2, 3, 4, 5, 6, 7, 8]);
}

#[test]
fn test_tx_counter_strictly_increases() {
    let mut s = Session::new_unencrypted(77);
    let c1 = s.get_next_tx_ctr().unwrap();
    let c2 = s.get_next_tx_ctr().unwrap();
    let c3 = s.get_next_tx_ctr().unwrap();
    assert!(c1 < c2 && c2 < c3);
}

#[test]
fn test_replay_window_rejects_duplicates_and_stale() {
    let mut s = Session::new_unencrypted(77);
    assert!(s.rx_filter(5));
    assert!(!s.rx_filter(5)); // identical counter replayed: dropped
    assert!(s.rx_filter(4)); // inside window, not yet seen
    assert!(!s.rx_filter(4));
    assert!(s.rx_filter(100));
    assert!(!s.rx_filter(5)); // now far older than the window
    assert!(!s.rx_filter(100));
    assert!(s.rx_filter(99));
}

#[test]
fn test_session_mgr_clone_and_lookup() {
    let mut mgr = SessionMgr::new();
    let sid = mgr.reserve_new_sess_id();
    assert_eq!(sid, 1);
    let sid2 = mgr.reserve_new_sess_id();
    assert_eq!(sid2, 2);
    mgr.sessions.push(Session::new_unencrypted(9));
    let mut cd = CloneData::new(0x11, 0x22, SessionMode::Pase);
    cd.enc_key = vec![1; 16];
    cd.dec_key = vec![2; 16];
    cd.att_challenge = vec![3; 16];
    let idx = mgr.clone_session(0, &cd).unwrap();
    assert_eq!(idx, 1);
    assert_eq!(mgr.lookup_by_local_sid(0x22), Some(1));
    assert_eq!(mgr.lookup_by_local_sid(0x99), None);
    let s = &mgr.sessions[idx];
    assert_eq!(s.mode, SessionMode::Pase);
    assert_eq!(s.enc_key, vec![1; 16]);
    assert_eq!(s.peer_addr, 9);
}

#[test]
fn test_sess_id_allocation_avoids_collisions() {
    let mut mgr = SessionMgr::new();
    // The monotonic candidate is used while free.
    assert_eq!(mgr.reserve_new_sess_id(), 1);
    assert_eq!(mgr.reserve_new_sess_id(), 2);
    // A live session occupying the next candidate is skipped.
    let mut taken = Session::new_unencrypted(1);
    taken.local_sess_id = 3;
    mgr.sessions.push(taken);
    let id = mgr.reserve_new_sess_id();
    assert_ne!(id, 3);
    assert!(id >= 1);
}

#[test]
fn test_mrp_ack_piggyback() {
    let mut e = Exchange::new(3, ExchangeRole::Responder);
    let ph = plain(None, None);
    let mut proto = ProtoHdr {
        opcode: 0x21,
        exch_id: 3,
        proto_id: 0,
        initiator: false,
        reliable: true,
        vendor_id: None,
        ack_ctr: None,
    };
    // A reliable inbound message leaves an acknowledgement pending.
    on_msg_recv(&mut e, &ph, &proto);
    assert_eq!(e.is_ack_pending(), Some(0xdeadbeef));
    // The next outbound reliable message carries it, is flagged reliable,
    // and fills the retransmit slot with its own counter.
    let mut out = ProtoHdr {
        opcode: 0x22,
        exch_id: 3,
        proto_id: 0,
        initiator: false,
        reliable: false,
        vendor_id: None,
        ack_ctr: None,
    };
    before_msg_send(&mut e, &ph, &mut out, true).unwrap();
    assert!(out.reliable);
    assert_eq!(out.ack_ctr, Some(0xdeadbeef));
    assert_eq!(e.is_ack_pending(), None);
    assert_eq!(e.last_tx_ctr, Some(0xdeadbeef));
    // An unreliable inbound message leaves nothing pending.
    proto.reliable = false;
    on_msg_recv(&mut e, &ph, &proto);
    assert_eq!(e.is_ack_pending(), None);
}

#[test]
fn test_mrp_ack_clears_retransmit_slot() {
    let mut e = Exchange::new(4, ExchangeRole::Responder);
    let ph = plain(None, None);
    // Send a reliable message: the retransmit slot holds its counter.
    let mut out = ProtoHdr {
        opcode: 0x22,
        exch_id: 4,
        proto_id: 0,
        initiator: false,
        reliable: false,
        vendor_id: None,
        ack_ctr: None,
    };
    before_msg_send(&mut e, &ph, &mut out, true).unwrap();
    assert_eq!(e.last_tx_ctr, Some(0xdeadbeef));
    // An inbound acknowledgement of another counter leaves the slot alone.
    let wrong_ack = ProtoHdr {
        opcode: 0x21,
        exch_id: 4,
        proto_id: 0,
        initiator: true,
        reliable: false,
        vendor_id: None,
        ack_ctr: Some(1),
    };
    on_msg_recv(&mut e, &ph, &wrong_ack);
    assert_eq!(e.last_tx_ctr, Some(0xdeadbeef));
    // A matching acknowledgement clears the pending retransmission.
    let good_ack = ProtoHdr { ack_ctr: Some(0xdeadbeef), ..wrong_ack };
    on_msg_recv(&mut e, &ph, &good_ack);
    assert_eq!(e.last_tx_ctr, None);
}

#[test]
fn test_mrp_unreliable_send_keeps_slot_and_flag() {
    let mut e = Exchange::new(5, ExchangeRole::Responder);
    let ph = plain(None, None);
    let mut out = ProtoHdr {
        opcode: 0x40,
        exch_id: 5,
        proto_id: 0,
        initiator: false,
        reliable: false,
        vendor_id: None,
        ack_ctr: None,
    };
    // A standalone acknowledgement is declared unreliable: no R-flag, no
    // retransmit slot.
    before_msg_send(&mut e, &ph, &mut out, false).unwrap();
    assert!(!out.reliable);
    assert_eq!(e.last_tx_ctr, None);
}
