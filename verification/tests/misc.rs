use matter::case::CaseSession;
use matter::error::Error;
use matter::exchange::{Exchange, ExchangeData, ExchangeRole};
use matter::fabric::{eq_bytes, u64_to_be_bytes, Fabric, FabricMgr};
use matter::gen_comm::GenCommState;
use matter::failsafe::FailSafe;
use matter::objects::{AttrValue, Attribute, Cluster, ClusterData, Endpoint, Node};
use matter::pake::PBKDFParamReq;

#[test]
fn test_u64_to_be_bytes() {
    assert_eq!(u64_to_be_bytes(0x0102030405060708), vec![1, 2, 3, 4, 5, 6, 7, 8]);
    assert_eq!(u64_to_be_bytes(0), vec![0; 8]);
}

#[test]
fn test_eq_bytes() {
    assert!(eq_bytes(&[1, 2, 3], &[1, 2, 3]));
    assert!(!eq_bytes(&[1, 2, 3], &[1, 2, 4]));
    assert!(!eq_bytes(&[1, 2], &[1, 2, 3]));
    assert!(eq_bytes(&[], &[]));
}

#[test]
fn test_fabric_dummy_and_get() {
    let mgr = FabricMgr::new().unwrap();
    let f0 = mgr.get_fabric(0).expect("the reserved slot holds the placeholder");
    assert_eq!(f0.fabric_id, 0);
    assert_eq!(f0.node_id, 0);
    assert!(mgr.get_fabric(1).is_none());
    assert!(mgr.get_fabric(9).is_none());
    let d = Fabric::dummy().unwrap();
    assert_eq!(d.compressed_id.len(), 8);
    assert_eq!(d.ipk.len(), 16);
}

#[test]
fn test_cluster_data_slot() {
    let mut c = Cluster::new(0x30).unwrap();
    assert!(c.get_data().is_none());
    c.set_data(ClusterData::GenComm(GenCommState {
        expiry_len: 7,
        failsafe: FailSafe::new(),
        reg_location: 2,
    }));
    match c.get_data().unwrap() {
        ClusterData::GenComm(s) => {
            assert_eq!(s.expiry_len, 7);
            s.expiry_len = 9; // mutable in place
        }
    }
    match c.get_data().unwrap() {
        ClusterData::GenComm(s) => assert_eq!(s.expiry_len, 9),
    }
    c.clear_data();
    assert!(c.get_data().is_none());
}

#[test]
fn test_tree_navigation_and_mutation() {
    let mut node = Node::new().unwrap();
    let e0 = node.add_endpoint().unwrap();
    assert_eq!(e0, 0);
    node.add_cluster(0, Cluster::new(0x28).unwrap()).unwrap();
    // Beyond the table's capacity: invalid; inside it but with no endpoint
    // there: no endpoint.
    assert!(matches!(node.add_cluster(5, Cluster::new(1).unwrap()), Err(Error::Invalid)));
    assert!(matches!(node.add_cluster(1, Cluster::new(1).unwrap()), Err(Error::NoEndpoint)));
    let ep = node.get_endpoint(0).unwrap();
    assert_eq!(ep.get_cluster_index(0x28), Some(0));
    let cl = ep.get_cluster(0x28).unwrap();
    cl.add_attribute(Attribute::new(4, AttrValue::Uint8(1)).unwrap()).unwrap();
    assert!(matches!(ep.get_cluster(0x99), Err(Error::ClusterNotFound)));
    assert!(matches!(node.get_endpoint(3), Err(Error::EndpointNotFound)));
    // The mutation went into the tree.
    let mut reports = Vec::new();
    node.read_attrs(Some(0), Some(0x28), Some(4), &mut reports).unwrap();
    assert_eq!(reports.len(), 1);
    assert_eq!(reports[0].value, AttrValue::Uint8(1));
}

#[test]
fn test_exchange_data_slot() {
    let mut e = Exchange::new(11, ExchangeRole::Initiator);
    assert_eq!(e.get_id(), 11);
    assert!(e.take_exchange_data().is_none());
    let cs = CaseSession::new(1, 2).unwrap();
    e.set_exchange_data(ExchangeData::Case(cs));
    let back = e.take_exchange_data();
    match back {
        Some(ExchangeData::Case(s)) => assert_eq!(s.peer_sessid, 1),
        None => panic!("the parked state is gone"),
    }
    assert!(e.take_exchange_data().is_none());
    e.set_exchange_data(ExchangeData::Case(CaseSession::new(3, 4).unwrap()));
    e.close();
    assert!(e.closed);
    assert!(e.take_exchange_data().is_none());
}

#[test]
fn test_pbkdf_param_req_validation() {
    assert!(PBKDFParamReq::new(&[0u8; 32], 1, 0, true).is_some());
    assert!(PBKDFParamReq::new(&[0u8; 31], 1, 0, true).is_none());
    let q = PBKDFParamReq::new(&[5u8; 32], 9, 0, false).unwrap();
    assert_eq!(q.initiator_sessid, 9);
    assert_eq!(q.passcode_id, 0);
    assert!(!q.has_params);
    assert_eq!(q.initiator_random, vec![5u8; 32]);
}

#[test]
fn test_endpoint_wildcard_clusters() {
    let mut ep = Endpoint::new().unwrap();
    ep.add_cluster(Cluster::new(10).unwrap()).unwrap();
    ep.add_cluster(Cluster::new(20).unwrap()).unwrap();
    assert_eq!(ep.get_wildcard_clusters(None).unwrap(), (0, 2));
    assert_eq!(ep.get_wildcard_clusters(Some(20)).unwrap(), (1, 2));
    assert!(ep.get_wildcard_clusters(Some(30)).is_err());
}
