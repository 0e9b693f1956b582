use matter::error::{Error, IMStatusCode};
use matter::failsafe::{FailSafe, FailSafeState};
use matter::gen_comm::{build_cmd_resp, GenCommCluster};
use matter::im::{CmdPathIb, CommandReq, Transaction, TransactionState};
use matter::objects::{
    AttrValue, Attribute, Cluster, ClusterData, CmdHandler, Command, Endpoint, Node,
};
use matter::session::SessionMode;
use matter::tlv::{encode, TLVElement, TLVValue, TagType};

fn ctx(tag: u8, value: TLVValue) -> TLVElement {
    TLVElement { tag: TagType::Context(tag), value }
}

fn arm_req(expiry: u16, breadcrumb: u64, mode: SessionMode, now: u64) -> CommandReq {
    CommandReq {
        cmd_path_ib: CmdPathIb { endpoint: Some(0), cluster: Some(0x30), command: Some(0) },
        data: TLVElement {
            tag: TagType::Anonymous,
            value: TLVValue::Struct(vec![
                ctx(0, TLVValue::U16(expiry)),
                ctx(1, TLVValue::U64(breadcrumb)),
            ]),
        },
        session_mode: mode,
        now,
    }
}

fn complete_req(mode: SessionMode) -> CommandReq {
    CommandReq {
        cmd_path_ib: CmdPathIb { endpoint: Some(0), cluster: Some(0x30), command: Some(4) },
        data: TLVElement { tag: TagType::Anonymous, value: TLVValue::Struct(vec![]) },
        session_mode: mode,
        now: 0,
    }
}

#[test]
fn test_failsafe_authority() {
    // Disarm succeeds exactly for the session mode that armed.
    let mut fs = FailSafe::new();
    assert!(!fs.is_armed());
    fs.arm(120, SessionMode::Pase, 1000).unwrap();
    assert!(fs.is_armed());
    assert!(fs.disarm(SessionMode::Case(1)).is_err());
    assert!(fs.is_armed());
    assert!(fs.disarm(SessionMode::Pase).is_ok());
    assert!(!fs.is_armed());
    // Re-arming by the same mode extends; by another mode fails.
    fs.arm(10, SessionMode::Case(2), 0).unwrap();
    assert!(fs.arm(20, SessionMode::Case(2), 5).is_ok());
    assert!(fs.arm(20, SessionMode::Pase, 5).is_err());
    // Expiry disarms through tick.
    assert!(!fs.tick(10_000));
    assert!(fs.tick(25_000));
    assert_eq!(fs.state, FailSafeState::Disarmed);
}

#[test]
fn test_gencomm_armfailsafe_and_complete() {
    let mut gc = GenCommCluster::new().unwrap();
    let mut resp: Vec<TLVElement> = Vec::new();
    let mut trans = Transaction::new();

    // Arm from a PASE session.
    let req = arm_req(60, 1, SessionMode::Pase, 0);
    gc.handle_command_armfailsafe(&req, &mut resp, &mut trans).unwrap();
    assert_eq!(resp.len(), 1);
    assert_eq!(encode(&resp[0]), encode(&build_cmd_resp(1, 0)));
    assert_eq!(trans.state, TransactionState::Complete);
    let fs = gc.failsafe().unwrap();
    assert!(matches!(fs.state, FailSafeState::Armed { .. }));

    // A different session mode is busy.
    let mut resp2: Vec<TLVElement> = Vec::new();
    let mut trans2 = Transaction::new();
    let req2 = arm_req(60, 1, SessionMode::Case(1), 0);
    assert!(matches!(
        gc.handle_command_armfailsafe(&req2, &mut resp2, &mut trans2),
        Err(IMStatusCode::Busy)
    ));

    // Commissioning-complete from a non-certificate session: invalid auth.
    let mut resp3: Vec<TLVElement> = Vec::new();
    let mut trans3 = Transaction::new();
    gc.handle_command_commissioningcomplete(&complete_req(SessionMode::Pase), &mut resp3, &mut trans3)
        .unwrap();
    assert_eq!(encode(&resp3[0]), encode(&build_cmd_resp(5, 2)));

    // From a certificate session that did not arm: not commissioning.
    let mut resp4: Vec<TLVElement> = Vec::new();
    let mut trans4 = Transaction::new();
    gc.handle_command_commissioningcomplete(&complete_req(SessionMode::Case(1)), &mut resp4, &mut trans4)
        .unwrap();
    assert_eq!(encode(&resp4[0]), encode(&build_cmd_resp(5, 3)));

    // Arm from a certificate session, then complete from it: success.
    let mut gc2 = GenCommCluster::new().unwrap();
    let mut resp5: Vec<TLVElement> = Vec::new();
    let mut trans5 = Transaction::new();
    gc2.handle_command_armfailsafe(&arm_req(60, 1, SessionMode::Case(1), 0), &mut resp5, &mut trans5)
        .unwrap();
    let mut resp6: Vec<TLVElement> = Vec::new();
    let mut trans6 = Transaction::new();
    gc2.handle_command_commissioningcomplete(&complete_req(SessionMode::Case(1)), &mut resp6, &mut trans6)
        .unwrap();
    assert_eq!(encode(&resp6[0]), encode(&build_cmd_resp(5, 0)));
    assert_eq!(gc2.failsafe().unwrap().state, FailSafeState::Disarmed);
}

#[test]
fn test_gencomm_set_regulatory_config() {
    let mut gc = GenCommCluster::new().unwrap();
    let mut resp: Vec<TLVElement> = Vec::new();
    let mut trans = Transaction::new();
    let req = CommandReq {
        cmd_path_ib: CmdPathIb { endpoint: Some(0), cluster: Some(0x30), command: Some(2) },
        data: TLVElement {
            tag: TagType::Anonymous,
            value: TLVValue::Struct(vec![
                ctx(0, TLVValue::U8(1)),
                ctx(1, TLVValue::Utf8(b"SE".to_vec())),
            ]),
        },
        session_mode: SessionMode::Pase,
        now: 0,
    };
    gc.handle_command_setregulatoryconfig(&req, &mut resp, &mut trans).unwrap();
    assert_eq!(encode(&resp[0]), encode(&build_cmd_resp(3, 0)));
    match gc.base.get_data().unwrap() {
        ClusterData::GenComm(s) => assert_eq!(s.reg_location, 1),
    }
}

#[test]
fn test_cluster_dispatch_and_unknown_command() {
    let mut gc = GenCommCluster::new().unwrap();
    let mut resp: Vec<TLVElement> = Vec::new();
    let mut trans = Transaction::new();
    // Dispatch by command id, through the cluster object and through the
    // generic cluster alike.
    let req = arm_req(60, 1, SessionMode::Pase, 0);
    gc.handle_command(&req, &mut resp, &mut trans).unwrap();
    assert_eq!(resp.len(), 1);
    let mut gcb = GenCommCluster::new().unwrap();
    gcb.base.handle_command(&req, &mut resp, &mut trans).unwrap();
    assert_eq!(resp.len(), 2);
    // The response ids route nowhere.
    for bad_id in [1u16, 3, 5] {
        let mut r = arm_req(60, 1, SessionMode::Pase, 0);
        r.cmd_path_ib.command = Some(bad_id);
        assert!(matches!(
            gc.handle_command(&r, &mut resp, &mut trans),
            Err(IMStatusCode::UnsupportedCommand)
        ));
    }
    // An id the cluster does not carry is unsupported.
    let mut bad = arm_req(60, 1, SessionMode::Pase, 0);
    bad.cmd_path_ib.command = Some(42);
    assert!(matches!(
        gc.base.handle_command(&bad, &mut resp, &mut trans),
        Err(IMStatusCode::UnsupportedCommand)
    ));
    // A wildcard command path is unsupported.
    let mut wild = arm_req(60, 1, SessionMode::Pase, 0);
    wild.cmd_path_ib.command = None;
    assert!(matches!(
        gc.base.handle_command(&wild, &mut resp, &mut trans),
        Err(IMStatusCode::UnsupportedCommand)
    ));
}

fn demo_cluster(id: u32, attrs: &[(u16, AttrValue)]) -> Cluster {
    let mut c = Cluster::new(id).unwrap();
    for (aid, v) in attrs {
        c.add_attribute(Attribute::new(*aid, *v).unwrap()).unwrap();
    }
    c
}

#[test]
fn test_wildcard_read_completeness() {
    // A read with every component wildcarded emits exactly one report per
    // (endpoint, cluster, attribute) triple.
    let mut node = Node::new().unwrap();
    node.add_endpoint().unwrap();
    node.add_endpoint().unwrap();
    node.add_cluster(0, demo_cluster(0x1d, &[(0, AttrValue::Bool(true))])).unwrap();
    node.add_cluster(0, demo_cluster(0x28, &[(1, AttrValue::Uint16(7)), (2, AttrValue::Uint8(3))]))
        .unwrap();
    node.add_cluster(1, demo_cluster(0x06, &[(0, AttrValue::Bool(false))])).unwrap();

    let mut reports = Vec::new();
    node.read_attrs(None, None, None, &mut reports).unwrap();
    assert_eq!(reports.len(), 4);
    let expected: Vec<(u16, u32, u16)> =
        vec![(0, 0x1d, 0), (0, 0x28, 1), (0, 0x28, 2), (1, 0x06, 0)];
    for (i, (e, c, a)) in expected.iter().enumerate() {
        assert_eq!(reports[i].endpoint, *e);
        assert_eq!(reports[i].cluster, *c);
        assert_eq!(reports[i].attr, *a);
    }

    // A concrete path reads exactly its attribute.
    let mut one = Vec::new();
    node.read_attrs(Some(0), Some(0x28), Some(2), &mut one).unwrap();
    assert_eq!(one.len(), 1);
    assert_eq!(one[0].value, AttrValue::Uint8(3));

    // Missing components fail without emitting anything.
    let mut none = Vec::new();
    assert!(matches!(
        node.read_attrs(Some(5), None, None, &mut none),
        Err(IMStatusCode::UnsupportedEndpoint)
    ));
    assert!(matches!(
        node.read_attrs(None, Some(0x99), None, &mut none),
        Err(IMStatusCode::UnsupportedCluster)
    ));
    assert!(matches!(
        node.read_attrs(Some(0), Some(0x28), Some(9), &mut none),
        Err(IMStatusCode::UnsupportedAttribute)
    ));
    assert!(none.is_empty());
}

#[test]
fn test_bounded_tables_report_no_space() {
    let mut c = Cluster::new(1).unwrap();
    for i in 0..4 {
        c.add_attribute(Attribute::new(i, AttrValue::Bool(true)).unwrap()).unwrap();
    }
    assert!(matches!(
        c.add_attribute(Attribute::new(9, AttrValue::Bool(true)).unwrap()),
        Err(Error::NoSpace)
    ));
    for i in 0..8 {
        c.add_command(Command::new(i, CmdHandler::ArmFailsafe).unwrap()).unwrap();
    }
    assert!(matches!(
        c.add_command(Command::new(9, CmdHandler::ArmFailsafe).unwrap()),
        Err(Error::NoSpace)
    ));
    let mut ep = Endpoint::new().unwrap();
    for i in 0..4 {
        ep.add_cluster(Cluster::new(i).unwrap()).unwrap();
    }
    assert!(matches!(ep.add_cluster(Cluster::new(9).unwrap()), Err(Error::NoSpace)));
    let mut node = Node::new().unwrap();
    for _ in 0..3 {
        node.add_endpoint().unwrap();
    }
    assert!(matches!(node.add_endpoint(), Err(Error::NoSpace)));
}

#[test]
fn test_gencomm_custom_attribute() {
    let gc = GenCommCluster::new().unwrap();
    let e = gc.read_custom_attribute(1).unwrap();
    assert_eq!(e.find_tag(0).unwrap().get_u16().unwrap(), 120);
    assert!(gc.read_custom_attribute(0).is_err());
    // The cluster's attribute table carries the four attributes.
    assert_eq!(gc.base.attributes.len(), 4);
    assert_eq!(gc.base.get_attribute_index(3), Some(2));
    let (s, e2) = gc.base.get_wildcard_attribute(None).unwrap();
    assert_eq!((s, e2), (0, 4));
}

#[test]
fn test_attr_value_tlv() {
    assert_eq!(
        encode(&AttrValue::Uint16(7).to_tlv(TagType::Context(2)).unwrap()),
        vec![0x25, 0x02, 0x07, 0x00]
    );
    assert!(AttrValue::Custom.to_tlv(TagType::Anonymous).is_err());
    // Signed values encode as signed TLV integers: -1 is 0xff in one byte.
    assert_eq!(
        encode(&AttrValue::Int8(-1).to_tlv(TagType::Anonymous).unwrap()),
        vec![0x00, 0xff]
    );
    assert_eq!(
        encode(&AttrValue::Int64(-2).to_tlv(TagType::Context(1)).unwrap()),
        vec![0x23, 0x01, 0xfe, 0xff, 0xff, 0xff, 0xff, 0xff, 0xff, 0xff]
    );
}
