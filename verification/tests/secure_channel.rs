use matter::error::SCStatusCodes;
use matter::objects::{AttrValue, Attribute, Cluster, Node};
use matter::sc_common::create_sc_status_report;

#[test]
fn test_status_report_layout() {
    assert_eq!(
        create_sc_status_report(SCStatusCodes::SessionEstablishmentSuccess, None),
        vec![0, 0, 0, 0, 0, 0, 0, 0]
    );
    assert_eq!(
        create_sc_status_report(SCStatusCodes::NoSharedTrustRoots, None),
        vec![1, 0, 0, 0, 0, 0, 1, 0]
    );
    assert_eq!(
        create_sc_status_report(SCStatusCodes::Busy, Some(&[0xf4, 0x01])),
        vec![1, 0, 0, 0, 0, 0, 4, 0, 0xf4, 0x01]
    );
}

fn cluster(id: u32, n_attrs: u16) -> Cluster {
    let mut c = Cluster::new(id).unwrap();
    for i in 0..n_attrs {
        c.add_attribute(Attribute::new(i, AttrValue::Bool(true)).unwrap()).unwrap();
    }
    c
}

#[test]
fn test_for_cluster_path_expansion() {
    let mut node = Node::new().unwrap();
    node.add_endpoint().unwrap();
    node.add_endpoint().unwrap();
    node.add_cluster(0, cluster(0x1d, 1)).unwrap();
    node.add_cluster(0, cluster(0x28, 2)).unwrap();
    node.add_cluster(1, cluster(0x28, 1)).unwrap();

    let pairs = node.for_cluster_path(None, None).unwrap();
    assert_eq!(pairs, vec![(0, 0x1d), (0, 0x28), (1, 0x28)]);
    let pairs = node.for_cluster_path(None, Some(0x28)).unwrap();
    assert_eq!(pairs, vec![(0, 0x28), (1, 0x28)]);
    let pairs = node.for_cluster_path(Some(1), None).unwrap();
    assert_eq!(pairs, vec![(1, 0x28)]);
    // A cluster missing from one addressed endpoint fails the expansion.
    assert!(node.for_cluster_path(None, Some(0x1d)).is_err());
    assert!(node.for_cluster_path(Some(7), None).is_err());
}
