use matter::im::{CmdPathIb, HandleInteraction, InteractionModel};
use matter::error::Error;
use matter::tlv::TLVElement;

struct Node {
    pub endpoint: u16,
    pub cluster: u32,
    pub command: u16,
    pub variable: u8,
}

struct DataModel {
    node: Node,
}

impl DataModel {
    pub fn new(node: Node) -> Self {
        DataModel { node }
    }
}

impl HandleInteraction for DataModel {
    fn handle_invoke_cmd(
        &mut self,
        cmd_path_ib: &CmdPathIb,
        variable: &TLVElement,
        _resp_buf: &mut Vec<u8>,
    ) -> Result<(), Error> {
        self.node.endpoint = cmd_path_ib.endpoint.unwrap();
        self.node.cluster = cmd_path_ib.cluster.unwrap();
        self.node.command = cmd_path_ib.command.unwrap();
        variable.confirm_struct().unwrap();
        self.node.variable = variable.find_tag(1).unwrap().get_u8().unwrap();
        Ok(())
    }
}

#[test]
fn test_valid_invoke_cmd() -> Result<(), Error> {
    // An invoke command for endpoint 0, cluster 49, command 12 and a u8 variable value of 0x05
    let b = [
        0x15, 0x36, 0x00, 0x15, 0x37, 0x00, 0x24, 0x00, 0x00, 0x24, 0x02, 0x31, 0x24, 0x03, 0x0c,
        0x18, 0x35, 0x01, 0x24, 0x01, 0x05, 0x18, 0x18, 0x18, 0x18,
    ];

    let data_model = DataModel::new(Node { endpoint: 0, cluster: 0, command: 0, variable: 0 });
    let mut interaction_model = InteractionModel::new(data_model);
    let mut resp: Vec<u8> = Vec::new();
    let _result = interaction_model.handle_proto_id(0x08, &b, &mut resp);

    let data = &interaction_model.handler.node;
    assert_eq!(data.endpoint, 0);
    assert_eq!(data.cluster, 49);
    assert_eq!(data.command, 12);
    assert_eq!(data.variable, 5);
    Ok(())
}

#[test]
fn test_unknown_opcode_refused() {
    let data_model = DataModel::new(Node { endpoint: 0, cluster: 0, command: 0, variable: 0 });
    let mut interaction_model = InteractionModel::new(data_model);
    let mut resp: Vec<u8> = Vec::new();
    assert!(matches!(
        interaction_model.handle_proto_id(0x05, &[0x15, 0x18], &mut resp),
        Err(Error::InvalidOpcode)
    ));
    assert!(matches!(
        interaction_model.handle_proto_id(0xee, &[0x15, 0x18], &mut resp),
        Err(Error::Invalid)
    ));
    assert_eq!(interaction_model.get_proto_id(), 1);
}

#[test]
fn test_malformed_invoke_refused() {
    let data_model = DataModel::new(Node { endpoint: 0, cluster: 0, command: 0, variable: 0 });
    let mut interaction_model = InteractionModel::new(data_model);
    let mut resp: Vec<u8> = Vec::new();
    // Truncated TLV
    assert!(matches!(
        interaction_model.handle_proto_id(0x08, &[0x15, 0x36], &mut resp),
        Err(Error::InvalidData)
    ));
}
