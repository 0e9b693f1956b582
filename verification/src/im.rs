//! Interaction-Model dispatch: decoding invoke requests into command paths
//! and payloads, routing them to a handler, and the request-scoped
//! transaction a handler may stash state in.

use crate::error::Error;
use crate::session::SessionMode;
use crate::tlv::{
    get_root_node_struct, spec_children, spec_decode_node, spec_find_tag, spec_uint_of, TLVElement,
    TlvNode,
};
use vstd::prelude::*;

verus! {

/// The Interaction-Model protocol id.
pub const PROTO_ID_INTERACTION_MODEL: u16 = 0x01;

/// Whether a handled message wants its reply sent.
#[derive(Clone, Copy, Debug, PartialEq, Eq, Structural)]
pub enum ResponseRequired {
    Yes,
    No,
}

/// The Interaction-Model opcodes.
#[derive(Clone, Copy, Debug, PartialEq, Eq, Structural)]
pub enum OpCode {
    Reserved,
    StatusResponse,
    ReadRequest,
    SubscribeRequest,
    SubscriptResponse,
    ReportData,
    WriteRequest,
    WriteResponse,
    InvokeRequest,
    InvokeResponse,
    TimedRequest,
}

/// The opcode a wire byte names.
pub open spec fn spec_opcode_from_u8(x: u8) -> Option<OpCode> {
    if x == 0 {
        Some(OpCode::Reserved)
    } else if x == 1 {
        Some(OpCode::StatusResponse)
    } else if x == 2 {
        Some(OpCode::ReadRequest)
    } else if x == 3 {
        Some(OpCode::SubscribeRequest)
    } else if x == 4 {
        Some(OpCode::SubscriptResponse)
    } else if x == 5 {
        Some(OpCode::ReportData)
    } else if x == 6 {
        Some(OpCode::WriteRequest)
    } else if x == 7 {
        Some(OpCode::WriteResponse)
    } else if x == 8 {
        Some(OpCode::InvokeRequest)
    } else if x == 9 {
        Some(OpCode::InvokeResponse)
    } else if x == 10 {
        Some(OpCode::TimedRequest)
    } else {
        None
    }
}

/// Maps a wire byte to its opcode.
pub fn opcode_from_u8(x: u8) -> (r: Option<OpCode>)
    ensures
        r == spec_opcode_from_u8(x),
{
    if x == 0 {
        Some(OpCode::Reserved)
    } else if x == 1 {
        Some(OpCode::StatusResponse)
    } else if x == 2 {
        Some(OpCode::ReadRequest)
    } else if x == 3 {
        Some(OpCode::SubscribeRequest)
    } else if x == 4 {
        Some(OpCode::SubscriptResponse)
    } else if x == 5 {
        Some(OpCode::ReportData)
    } else if x == 6 {
        Some(OpCode::WriteRequest)
    } else if x == 7 {
        Some(OpCode::WriteResponse)
    } else if x == 8 {
        Some(OpCode::InvokeRequest)
    } else if x == 9 {
        Some(OpCode::InvokeResponse)
    } else if x == 10 {
        Some(OpCode::TimedRequest)
    } else {
        None
    }
}

/// How far a request has come.
#[derive(Clone, Copy, Debug, PartialEq, Eq, Structural)]
pub enum TransactionState {
    Ongoing,
    Complete,
}

/// What a command handler may stash across commands of one exchange.
pub enum TransactionData {
    Fabric(crate::fabric::Fabric),
}

/// A request-scoped transaction: its state, and an owned slot a handler can
/// fill for a later command of the same exchange.
pub struct Transaction {
    pub state: TransactionState,
    pub data: Option<TransactionData>,
}

impl Transaction {
    pub fn new() -> (r: Transaction)
        ensures
            r.state == TransactionState::Ongoing,
            r.data is None,
    {
        Transaction { state: TransactionState::Ongoing, data: None }
    }

    /// Marks the request complete.
    pub fn complete(&mut self)
        ensures
            final(self).state == TransactionState::Complete,
            final(self).data == old(self).data,
    {
        self.state = TransactionState::Complete;
    }
}

/// A command path: wildcards are allowed for reads, never for invokes.
#[derive(Clone, Copy, Debug, PartialEq, Eq, Structural)]
pub struct CmdPathIb {
    pub endpoint: Option<u16>,
    pub cluster: Option<u32>,
    pub command: Option<u16>,
}

/// One decoded invoke: the path and the command's payload.
pub struct CommandReq {
    pub cmd_path_ib: CmdPathIb,
    pub data: TLVElement,
    pub session_mode: SessionMode,
    pub now: u64,
}

/// The path component under context tag `tag`, when it is an unsigned value
/// within `bound`.
pub open spec fn spec_path_field(cs: Seq<TlvNode>, tag: u8, bound: u64) -> Option<u64> {
    match spec_find_tag(cs, tag) {
        Some(n) => match spec_uint_of(n.value) {
            Some(v) => if v <= bound {
                Some(v)
            } else {
                None
            },
            None => None,
        },
        None => None,
    }
}

/// The command path a path-list element carries: endpoint under tag 0,
/// cluster under tag 2, command under tag 3, each absent or out of range
/// becoming a wildcard.
pub open spec fn spec_cmd_path_ib(cs: Seq<TlvNode>) -> CmdPathIb {
    CmdPathIb {
        endpoint: match spec_path_field(cs, 0, 0xffff) {
            Some(v) => Some(v as u16),
            None => None,
        },
        cluster: match spec_path_field(cs, 2, 0xffffffff) {
            Some(v) => Some(v as u32),
            None => None,
        },
        command: match spec_path_field(cs, 3, 0xffff) {
            Some(v) => Some(v as u16),
            None => None,
        },
    }
}

/// Reads one unsigned path component.
fn get_path_field_u64(cmd_path: &TLVElement, tag: u8, bound: u64) -> (r: Option<u64>)
    requires
        spec_children(cmd_path@.value) is Some,
    ensures
        r == spec_path_field(spec_children(cmd_path@.value)->Some_0, tag, bound),
{
    match cmd_path.find_tag(tag) {
        Ok(e) => {
            match e.get_uint() {
                Ok(v) => {
                    if v <= bound {
                        Some(v)
                    } else {
                        None
                    }
                },
                Err(_) => None,
            }
        },
        Err(_) => None,
    }
}

/// Decodes the command path from a path-list element.
pub fn get_cmd_path_ib(cmd_path: &TLVElement) -> (r: Result<CmdPathIb, Error>)
    ensures
        match r {
            Ok(p) => {
                &&& spec_children(cmd_path@.value) matches Some(cs)
                &&& p == spec_cmd_path_ib(cs)
            },
            Err(e) => spec_children(cmd_path@.value) is None && e == Error::InvalidData,
        },
{
    match cmd_path.children() {
        Ok(_) => {},
        Err(e) => {
            return Err(e);
        },
    }
    let endpoint = match get_path_field_u64(cmd_path, 0, 0xffff) {
        Some(v) => Some(v as u16),
        None => None,
    };
    let cluster = match get_path_field_u64(cmd_path, 2, 0xffffffff) {
        Some(v) => Some(v as u32),
        None => None,
    };
    let command = match get_path_field_u64(cmd_path, 3, 0xffff) {
        Some(v) => Some(v as u16),
        None => None,
    };
    Ok(CmdPathIb { endpoint, cluster, command })
}

/// What an Interaction-Model handler does with one decoded invoke.
pub trait HandleInteraction {
    /// Handles one command: the decoded path, the command's payload element,
    /// and the response buffer to append to.
    fn handle_invoke_cmd(
        &mut self,
        cmd_path_ib: &CmdPathIb,
        variable: &TLVElement,
        resp_buf: &mut Vec<u8>,
    ) -> Result<(), Error>;
}

/// The Interaction-Model protocol handler: routes opcodes to the handler.
pub struct InteractionModel<H: HandleInteraction> {
    pub handler: H,
}

/// The command list of an invoke request: the array under context tag 0 of
/// the root struct.
pub open spec fn spec_invoke_cmd_list(bytes: Seq<u8>) -> Option<Seq<TlvNode>> {
    match spec_decode_node(bytes) {
        Some(p) => {
            if p.0.value is Struct {
                match spec_children(p.0.value) {
                    Some(root_cs) => match spec_find_tag(root_cs, 0) {
                        Some(arr) => {
                            if arr.value is Array {
                                spec_children(arr.value)
                            } else {
                                None
                            }
                        },
                        None => None,
                    },
                    None => None,
                }
            } else {
                None
            }
        },
        None => None,
    }
}

impl<H: HandleInteraction> InteractionModel<H> {
    pub fn new(handler: H) -> (r: InteractionModel<H>)
        ensures
            r.handler == handler,
    {
        InteractionModel { handler }
    }

    /// Decodes an invoke request and calls the handler once per command,
    /// in list order, with that command's decoded path and payload. Stops at
    /// the first handler error, handing it on unchanged. Bytes that do not
    /// decode to an invoke request fail with `InvalidData`, as does a command
    /// entry that is not a struct holding a path list under tag 0 and a
    /// payload under tag 1; an empty command list succeeds and writes
    /// nothing. What the handler does with a command is its own.
    pub fn invoke_req_handler(&mut self, buf: &[u8], resp: &mut Vec<u8>) -> (r: Result<
        ResponseRequired,
        Error,
    >)
        ensures
            r matches Ok(rr) ==> rr == ResponseRequired::Yes && spec_invoke_cmd_list(
                buf@,
            ) is Some,
            spec_invoke_cmd_list(buf@) is None ==> r == Err::<ResponseRequired, Error>(
                Error::InvalidData,
            ) && final(resp)@ == old(resp)@,
            (spec_invoke_cmd_list(buf@) matches Some(cmds) && cmds.len() == 0) ==> (r == Ok::<
                ResponseRequired,
                Error,
            >(ResponseRequired::Yes) && final(resp)@ == old(resp)@),
    {
        let root = match get_root_node_struct(buf) {
            Ok(e) => e,
            Err(_) => {
                return Err(Error::InvalidData);
            },
        };
        let cmd_list = match root.find_tag(0) {
            Ok(e) => e,
            Err(_) => {
                return Err(Error::InvalidData);
            },
        };
        let arr = match cmd_list.confirm_array() {
            Ok(a) => a,
            Err(_) => {
                return Err(Error::InvalidData);
            },
        };
        let cmds = match arr.children() {
            Ok(cs) => cs,
            Err(_) => {
                return Err(Error::InvalidData);
            },
        };
        proof {
            assert(spec_invoke_cmd_list(buf@) == Some(crate::tlv::elems_view(cmds@)));
            crate::tlv::lemma_elems_view(cmds@);
        }
        let n = cmds.len();
        if n == 0 {
            return Ok(ResponseRequired::Yes);
        }
        let mut i: usize = 0;
        while i < n
            invariant
                i <= n,
                0 < n == cmds@.len(),
                spec_invoke_cmd_list(buf@) == Some(crate::tlv::elems_view(cmds@)),
                crate::tlv::elems_view(cmds@).len() == n,
            decreases n - i,
        {
            let cmd_data_ib = &cmds[i];
            let path_elem = match cmd_data_ib.find_tag(0) {
                Ok(e) => e,
                Err(_) => {
                    return Err(Error::InvalidData);
                },
            };
            match path_elem.confirm_list() {
                Ok(_) => {},
                Err(_) => {
                    return Err(Error::InvalidData);
                },
            }
            let cmd_path_ib = match get_cmd_path_ib(path_elem) {
                Ok(p) => p,
                Err(_) => {
                    return Err(Error::InvalidData);
                },
            };
            let variable = match cmd_data_ib.find_tag(1) {
                Ok(e) => e,
                Err(_) => {
                    return Err(Error::InvalidData);
                },
            };
            match self.handler.handle_invoke_cmd(&cmd_path_ib, variable, resp) {
                Ok(()) => {},
                Err(e) => {
                    return Err(e);
                },
            }
            i = i + 1;
        }
        Ok(ResponseRequired::Yes)
    }

    /// Routes an Interaction-Model opcode: invoke requests are handled, all
    /// other opcodes are refused.
    pub fn handle_proto_id(&mut self, proto_opcode: u8, buf: &[u8], resp: &mut Vec<u8>) -> (r:
        Result<ResponseRequired, Error>)
        ensures
            spec_opcode_from_u8(proto_opcode) is None ==> r == Err::<ResponseRequired, Error>(
                Error::Invalid,
            ) && final(resp)@ == old(resp)@,
            (spec_opcode_from_u8(proto_opcode) matches Some(op) && op != OpCode::InvokeRequest)
                ==> r == Err::<ResponseRequired, Error>(Error::InvalidOpcode) && final(resp)@
                == old(resp)@,
            spec_opcode_from_u8(proto_opcode) == Some(OpCode::InvokeRequest) ==> {
                &&& (r matches Ok(rr) ==> rr == ResponseRequired::Yes && spec_invoke_cmd_list(
                    buf@,
                ) is Some)
                &&& (spec_invoke_cmd_list(buf@) is None ==> r == Err::<ResponseRequired, Error>(
                    Error::InvalidData,
                ) && final(resp)@ == old(resp)@)
                &&& ((spec_invoke_cmd_list(buf@) matches Some(cmds) && cmds.len() == 0) ==> (r
                    == Ok::<ResponseRequired, Error>(ResponseRequired::Yes) && final(resp)@ == old(
                    resp,
                )@))
            },
    {
        let op = match opcode_from_u8(proto_opcode) {
            Some(op) => op,
            None => {
                return Err(Error::Invalid);
            },
        };
        match op {
            OpCode::InvokeRequest => self.invoke_req_handler(buf, resp),
            _ => Err(Error::InvalidOpcode),
        }
    }

    /// The protocol id this handler serves.
    pub fn get_proto_id(&self) -> (r: u16)
        ensures
            r == PROTO_ID_INTERACTION_MODEL,
    {
        PROTO_ID_INTERACTION_MODEL
    }
}

} // verus!
