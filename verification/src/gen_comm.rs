//! The General Commissioning cluster: its attributes, its commands
//! (arm-failsafe, set-regulatory-config, commissioning-complete) and the
//! failsafe state they drive.

use crate::error::{Error, IMStatusCode};
use crate::failsafe::{spec_arm_allowed, spec_disarm_allowed, FailSafe, FailSafeState};
use crate::im::{spec_path_field, CommandReq, Transaction, TransactionState};
use crate::objects::{Attribute, AttrValue, Cluster, ClusterData, CmdHandler, Command};
use crate::session::SessionMode;
use crate::tlv::{spec_children, spec_find_tag, TLVElement, TLVValue, TagType, TlvNode, TlvTree};
use vstd::prelude::*;

verus! {

/// The cluster id of General Commissioning.
pub const ID: u32 = 0x0030;

/// The long-lived state of the General Commissioning cluster.
#[derive(Clone, Copy, Debug, PartialEq, Eq, Structural)]
pub struct GenCommState {
    pub expiry_len: u16,
    pub failsafe: FailSafe,
    pub reg_location: u8,
}

/// The cluster's attributes.
#[derive(Clone, Copy, Debug, PartialEq, Eq, Structural)]
pub enum Attributes {
    BreadCrumb,
    BasicCommissioningInfo,
    RegConfig,
    LocationCapability,
}

impl Attributes {
    pub open spec fn spec_id(self) -> u16 {
        match self {
            Attributes::BreadCrumb => 0,
            Attributes::BasicCommissioningInfo => 1,
            Attributes::RegConfig => 2,
            Attributes::LocationCapability => 3,
        }
    }

    pub fn id(self) -> (r: u16)
        ensures
            r == self.spec_id(),
    {
        match self {
            Attributes::BreadCrumb => 0,
            Attributes::BasicCommissioningInfo => 1,
            Attributes::RegConfig => 2,
            Attributes::LocationCapability => 3,
        }
    }
}

/// The cluster's command and response opcodes.
#[derive(Clone, Copy, Debug, PartialEq, Eq, Structural)]
pub enum Commands {
    ArmFailsafe,
    ArmFailsafeResp,
    SetRegulatoryConfig,
    SetRegulatoryConfigResp,
    CommissioningComplete,
    CommissioningCompleteResp,
}

impl Commands {
    pub open spec fn spec_id(self) -> u16 {
        match self {
            Commands::ArmFailsafe => 0x00,
            Commands::ArmFailsafeResp => 0x01,
            Commands::SetRegulatoryConfig => 0x02,
            Commands::SetRegulatoryConfigResp => 0x03,
            Commands::CommissioningComplete => 0x04,
            Commands::CommissioningCompleteResp => 0x05,
        }
    }

    pub fn id(self) -> (r: u16)
        ensures
            r == self.spec_id(),
    {
        match self {
            Commands::ArmFailsafe => 0x00,
            Commands::ArmFailsafeResp => 0x01,
            Commands::SetRegulatoryConfig => 0x02,
            Commands::SetRegulatoryConfigResp => 0x03,
            Commands::CommissioningComplete => 0x04,
            Commands::CommissioningCompleteResp => 0x05,
        }
    }
}

/// Where the device may be regulated to operate.
#[derive(Clone, Copy, Debug, PartialEq, Eq, Structural)]
pub enum RegLocationType {
    Indoor,
    Outdoor,
    IndoorOutdoor,
}

impl RegLocationType {
    pub open spec fn spec_code(self) -> u8 {
        match self {
            RegLocationType::Indoor => 0,
            RegLocationType::Outdoor => 1,
            RegLocationType::IndoorOutdoor => 2,
        }
    }

    pub fn code(self) -> (r: u8)
        ensures
            r == self.spec_code(),
    {
        match self {
            RegLocationType::Indoor => 0,
            RegLocationType::Outdoor => 1,
            RegLocationType::IndoorOutdoor => 2,
        }
    }
}

/// The outcome codes the cluster's responses carry.
#[derive(Clone, Copy, Debug, PartialEq, Eq, Structural)]
pub enum CommissioningError {
    Success,
    ErrValueOutsideRange,
    ErrInvalidAuth,
    ErrNotCommissioning,
}

impl CommissioningError {
    pub open spec fn spec_code(self) -> u8 {
        match self {
            CommissioningError::Success => 0,
            CommissioningError::ErrValueOutsideRange => 1,
            CommissioningError::ErrInvalidAuth => 2,
            CommissioningError::ErrNotCommissioning => 3,
        }
    }

    pub fn code(self) -> (r: u8)
        ensures
            r == self.spec_code(),
    {
        match self {
            CommissioningError::Success => 0,
            CommissioningError::ErrValueOutsideRange => 1,
            CommissioningError::ErrInvalidAuth => 2,
            CommissioningError::ErrNotCommissioning => 3,
        }
    }
}

/// The breadcrumb attribute, read-write.
pub fn attr_bread_crumb_new(bread_crumb: u64) -> (r: Result<Attribute, Error>)
    ensures
        r matches Ok(a) && a.id == 0 && a.value == AttrValue::Uint64(bread_crumb),
{
    Attribute::new(0, AttrValue::Uint64(bread_crumb))
}

/// The regulatory-config attribute.
pub fn attr_reg_config_new(reg_config: RegLocationType) -> (r: Result<Attribute, Error>)
    ensures
        r matches Ok(a) && a.id == 2 && a.value == AttrValue::Uint8(reg_config.spec_code()),
{
    Attribute::new(2, AttrValue::Uint8(reg_config.code()))
}

/// The fixed location-capability attribute.
pub fn attr_location_capability_new(reg_config: RegLocationType) -> (r: Result<Attribute, Error>)
    ensures
        r matches Ok(a) && a.id == 3 && a.value == AttrValue::Uint8(reg_config.spec_code()),
{
    Attribute::new(3, AttrValue::Uint8(reg_config.code()))
}

/// The basic-commissioning-info attribute; its value is cluster-encoded.
pub fn attr_comm_info_new() -> (r: Result<Attribute, Error>)
    ensures
        r matches Ok(a) && a.id == 1 && a.value == AttrValue::Custom,
{
    Attribute::new(1, AttrValue::Custom)
}

/// The commissioning state a cluster carries, when it is this cluster.
pub open spec fn spec_gencomm_state(c: Cluster) -> Option<GenCommState> {
    match c.data {
        Some(ClusterData::GenComm(s)) => Some(s),
        None => None,
    }
}

/// The arm-failsafe parameters: expiry seconds under tag 0 (at most 16
/// bits), breadcrumb under tag 1.
pub open spec fn spec_arm_params(t: TlvTree) -> Option<(u64, u64)> {
    match spec_children(t) {
        Some(cs) => match (spec_path_field(cs, 0, 0xffff), spec_path_field(
            cs,
            1,
            0xffffffffffffffff,
        )) {
            (Some(e), Some(b)) => Some((e, b)),
            _ => None,
        },
        None => None,
    }
}

/// The set-regulatory-config parameters: location under tag 0 (at most 8
/// bits), country code under tag 1 as a character string.
pub open spec fn spec_set_reg_params(t: TlvTree) -> Option<(u64, Seq<u8>)> {
    match spec_children(t) {
        Some(cs) => match (spec_path_field(cs, 0, 0xff), spec_find_tag(cs, 1)) {
            (Some(l), Some(n)) => match n.value {
                TlvTree::Utf8(s) => Some((l, s)),
                _ => None,
            },
            _ => None,
        },
        None => None,
    }
}

/// The response element a commissioning command emits: the concrete path
/// on endpoint 0 and a status struct with the outcome code and empty text.
pub open spec fn spec_cmd_resp(cmd: u16, status: u8) -> TlvNode {
    TlvNode {
        tag: TagType::Anonymous,
        value: TlvTree::Struct(
            seq![
                TlvNode {
                    tag: TagType::Context(0),
                    value: TlvTree::List(
                        seq![
                            TlvNode { tag: TagType::Context(0), value: TlvTree::U16(0) },
                            TlvNode { tag: TagType::Context(2), value: TlvTree::U32(ID) },
                            TlvNode { tag: TagType::Context(3), value: TlvTree::U16(cmd) },
                        ],
                    ),
                },
                TlvNode {
                    tag: TagType::Context(1),
                    value: TlvTree::Struct(
                        seq![
                            TlvNode { tag: TagType::Context(0), value: TlvTree::U8(status) },
                            TlvNode { tag: TagType::Context(1), value: TlvTree::Utf8(Seq::empty()) },
                        ],
                    ),
                },
            ],
        ),
    }
}

/// Builds the response element for a commissioning command.
pub fn build_cmd_resp(cmd: u16, status: u8) -> (r: TLVElement)
    ensures
        r@ == spec_cmd_resp(cmd, status),
        crate::tlv::wf_tree(r@.value),
{
    let mut path: Vec<TLVElement> = Vec::new();
    path.push(TLVElement { tag: TagType::Context(0), value: TLVValue::U16(0) });
    path.push(TLVElement { tag: TagType::Context(2), value: TLVValue::U32(ID) });
    path.push(TLVElement { tag: TagType::Context(3), value: TLVValue::U16(cmd) });
    let mut status_fields: Vec<TLVElement> = Vec::new();
    status_fields.push(TLVElement { tag: TagType::Context(0), value: TLVValue::U8(status) });
    status_fields.push(TLVElement { tag: TagType::Context(1), value: TLVValue::Utf8(Vec::new()) });
    let mut fields: Vec<TLVElement> = Vec::new();
    fields.push(TLVElement { tag: TagType::Context(0), value: TLVValue::List(path) });
    fields.push(TLVElement { tag: TagType::Context(1), value: TLVValue::Struct(status_fields) });
    let r = TLVElement { tag: TagType::Anonymous, value: TLVValue::Struct(fields) };
    proof {
        crate::tlv::lemma_elems_view(fields@);
        crate::tlv::lemma_elems_view(path@);
        crate::tlv::lemma_elems_view(status_fields@);
        assert(crate::tlv::elems_view(path@) =~= spec_cmd_resp(cmd, status).value->Struct_0[0].value->List_0);
        assert(crate::tlv::elems_view(status_fields@)
            =~= spec_cmd_resp(cmd, status).value->Struct_0[1].value->Struct_0);
        assert(crate::tlv::elems_view(fields@) =~= spec_cmd_resp(cmd, status).value->Struct_0);
        crate::tlv::lemma_wf_nodes(crate::tlv::elems_view(fields@));
        crate::tlv::lemma_wf_nodes(crate::tlv::elems_view(path@));
        crate::tlv::lemma_wf_nodes(crate::tlv::elems_view(status_fields@));
    }
    r
}

/// The outcome of commissioning-complete for a session mode and failsafe
/// state: only a certificate-authenticated session that armed the failsafe
/// may complete commissioning; a certificate session that did not arm it is
/// not commissioning.
pub open spec fn spec_commissioning_status(fs: FailSafeState, mode: SessionMode) -> CommissioningError {
    if !(mode is Case) {
        CommissioningError::ErrInvalidAuth
    } else if !spec_disarm_allowed(fs, mode) {
        CommissioningError::ErrNotCommissioning
    } else {
        CommissioningError::Success
    }
}

/// What arm-failsafe does: with well-formed parameters and an idle failsafe
/// or one held by the same session mode, it arms and answers success; a
/// failsafe held by another mode is busy; bad parameters are an invalid
/// command; a cluster without commissioning state fails.
pub open spec fn arm_failsafe_rel(
    pre: Cluster,
    post: Cluster,
    req: CommandReq,
    resp_pre: Seq<TLVElement>,
    resp_post: Seq<TLVElement>,
    trans_pre: Transaction,
    trans_post: Transaction,
    r: Result<(), IMStatusCode>,
) -> bool {
    match spec_gencomm_state(pre) {
        None => r == Err::<(), IMStatusCode>(IMStatusCode::Failure) && post == pre && resp_post
            == resp_pre && trans_post == trans_pre,
        Some(s) => match spec_arm_params(req.data@.value) {
            None => r == Err::<(), IMStatusCode>(IMStatusCode::InvalidCommand) && post == pre
                && resp_post == resp_pre && trans_post == trans_pre,
            Some((expiry, _bc)) => {
                if spec_arm_allowed(s.failsafe.state, req.session_mode) {
                    &&& r == Ok::<(), IMStatusCode>(())
                    &&& spec_gencomm_state(post) == Some(
                        GenCommState {
                            failsafe: FailSafe {
                                state: FailSafeState::Armed {
                                    deadline: (req.now + expiry * 1000) as u64,
                                    armed_by: req.session_mode,
                                },
                            },
                            ..s
                        },
                    )
                    &&& post.id == pre.id && post.attributes == pre.attributes && post.commands
                        == pre.commands
                    &&& resp_post.len() == resp_pre.len() + 1
                    &&& resp_post.drop_last() == resp_pre
                    &&& resp_post.last()@ == spec_cmd_resp(1, 0)
                    &&& trans_post.state == TransactionState::Complete
                } else {
                    &&& r == Err::<(), IMStatusCode>(IMStatusCode::Busy)
                    &&& post == pre && resp_post == resp_pre && trans_post == trans_pre
                }
            },
        },
    }
}

/// Arms the commissioning failsafe.
pub fn cmd_arm_failsafe(
    cluster: &mut Cluster,
    req: &CommandReq,
    resp: &mut Vec<TLVElement>,
    trans: &mut Transaction,
) -> (r: Result<(), IMStatusCode>)
    requires
        req.now <= u64::MAX - 0xffff * 1000,
    ensures
        arm_failsafe_rel(
            *old(cluster),
            *final(cluster),
            *req,
            old(resp)@,
            final(resp)@,
            *old(trans),
            *final(trans),
            r,
        ),
{
    let e = match req.data.find_tag(0) {
        Ok(el) => {
            match el.get_uint() {
                Ok(v) => {
                    if v <= 0xffff {
                        Some(v)
                    } else {
                        None
                    }
                },
                Err(_) => None,
            }
        },
        Err(_) => None,
    };
    let b = match req.data.find_tag(1) {
        Ok(el) => {
            match el.get_uint() {
                Ok(v) => Some(v),
                Err(_) => None,
            }
        },
        Err(_) => None,
    };
    let (expiry, _bc) = match (e, b) {
        (Some(ev), Some(bv)) => (ev, bv),
        _ => {
            match cluster.get_data() {
                Some(_) => {
                    return Err(IMStatusCode::InvalidCommand);
                },
                None => {
                    return Err(IMStatusCode::Failure);
                },
            }
        },
    };
    let now = req.now;
    let mode = req.session_mode;
    match cluster.get_data() {
        Some(d) => {
            match d {
                ClusterData::GenComm(s) => {
                    match s.failsafe.arm(expiry as u16, mode, now) {
                        Ok(()) => {},
                        Err(_) => {
                            return Err(IMStatusCode::Busy);
                        },
                    }
                },
            }
        },
        None => {
            return Err(IMStatusCode::Failure);
        },
    }
    resp.push(build_cmd_resp(1, 0));
    proof {
        assert(final(resp)@.drop_last() =~= old(resp)@);
    }
    trans.complete();
    Ok(())
}

/// What set-regulatory-config does: with well-formed parameters it records
/// the location and answers success; bad parameters are an invalid command;
/// a cluster without commissioning state fails.
pub open spec fn set_reg_rel(
    pre: Cluster,
    post: Cluster,
    req: CommandReq,
    resp_pre: Seq<TLVElement>,
    resp_post: Seq<TLVElement>,
    trans_pre: Transaction,
    trans_post: Transaction,
    r: Result<(), IMStatusCode>,
) -> bool {
    match spec_gencomm_state(pre) {
        None => r == Err::<(), IMStatusCode>(IMStatusCode::Failure) && post == pre && resp_post
            == resp_pre && trans_post == trans_pre,
        Some(s) => match spec_set_reg_params(req.data@.value) {
            None => r == Err::<(), IMStatusCode>(IMStatusCode::InvalidCommand) && post == pre
                && resp_post == resp_pre && trans_post == trans_pre,
            Some((location, _cc)) => {
                &&& r == Ok::<(), IMStatusCode>(())
                &&& spec_gencomm_state(post) == Some(
                    GenCommState { reg_location: location as u8, ..s },
                )
                &&& post.id == pre.id && post.attributes == pre.attributes && post.commands
                    == pre.commands
                &&& resp_post.len() == resp_pre.len() + 1
                &&& resp_post.drop_last() == resp_pre
                &&& resp_post.last()@ == spec_cmd_resp(3, 0)
                &&& trans_post.state == TransactionState::Complete
            },
        },
    }
}

/// Records the regulatory configuration.
pub fn cmd_set_regulatory_config(
    cluster: &mut Cluster,
    req: &CommandReq,
    resp: &mut Vec<TLVElement>,
    trans: &mut Transaction,
) -> (r: Result<(), IMStatusCode>)
    ensures
        set_reg_rel(
            *old(cluster),
            *final(cluster),
            *req,
            old(resp)@,
            final(resp)@,
            *old(trans),
            *final(trans),
            r,
        ),
{
    let l = match req.data.find_tag(0) {
        Ok(el) => {
            match el.get_uint() {
                Ok(v) => {
                    if v <= 0xff {
                        Some(v)
                    } else {
                        None
                    }
                },
                Err(_) => None,
            }
        },
        Err(_) => None,
    };
    let cc_ok: bool = match req.data.find_tag(1) {
        Ok(el) => {
            match &el.value {
                TLVValue::Utf8(_) => true,
                _ => false,
            }
        },
        Err(_) => false,
    };
    let location = match (l, cc_ok) {
        (Some(lv), true) => lv,
        _ => {
            match cluster.get_data() {
                Some(_) => {
                    return Err(IMStatusCode::InvalidCommand);
                },
                None => {
                    return Err(IMStatusCode::Failure);
                },
            }
        },
    };
    match cluster.get_data() {
        Some(d) => {
            match d {
                ClusterData::GenComm(s) => {
                    s.reg_location = location as u8;
                },
            }
        },
        None => {
            return Err(IMStatusCode::Failure);
        },
    }
    resp.push(build_cmd_resp(3, 0));
    proof {
        assert(final(resp)@.drop_last() =~= old(resp)@);
    }
    trans.complete();
    Ok(())
}

/// What commissioning-complete does: it always answers, carrying the
/// outcome for the caller's session mode; on success the failsafe is
/// disarmed, otherwise the state is kept.
pub open spec fn commissioning_complete_rel(
    pre: Cluster,
    post: Cluster,
    req: CommandReq,
    resp_pre: Seq<TLVElement>,
    resp_post: Seq<TLVElement>,
    trans_pre: Transaction,
    trans_post: Transaction,
    r: Result<(), IMStatusCode>,
) -> bool {
    match spec_gencomm_state(pre) {
        None => r == Err::<(), IMStatusCode>(IMStatusCode::Failure) && post == pre && resp_post
            == resp_pre && trans_post == trans_pre,
        Some(s) => {
            let status = spec_commissioning_status(s.failsafe.state, req.session_mode);
            &&& r == Ok::<(), IMStatusCode>(())
            &&& spec_gencomm_state(post) == Some(
                GenCommState {
                    failsafe: FailSafe {
                        state: if status == CommissioningError::Success {
                            FailSafeState::Disarmed
                        } else {
                            s.failsafe.state
                        },
                    },
                    ..s
                },
            )
            &&& post.id == pre.id && post.attributes == pre.attributes && post.commands
                == pre.commands
            &&& resp_post.len() == resp_pre.len() + 1
            &&& resp_post.drop_last() == resp_pre
            &&& resp_post.last()@ == spec_cmd_resp(5, status.spec_code())
            &&& trans_post.state == TransactionState::Complete
        },
    }
}

/// Completes commissioning for a certificate-authenticated session.
pub fn cmd_commissioning_complete(
    cluster: &mut Cluster,
    req: &CommandReq,
    resp: &mut Vec<TLVElement>,
    trans: &mut Transaction,
) -> (r: Result<(), IMStatusCode>)
    ensures
        commissioning_complete_rel(
            *old(cluster),
            *final(cluster),
            *req,
            old(resp)@,
            final(resp)@,
            *old(trans),
            *final(trans),
            r,
        ),
{
    let is_case = match req.session_mode {
        SessionMode::Case(_) => true,
        _ => false,
    };
    let mode = req.session_mode;
    let status: u8;
    match cluster.get_data() {
        Some(d) => {
            match d {
                ClusterData::GenComm(s) => {
                    if !is_case {
                        status = CommissioningError::ErrInvalidAuth.code();
                    } else {
                        match s.failsafe.disarm(mode) {
                            Ok(()) => {
                                status = CommissioningError::Success.code();
                            },
                            Err(_) => {
                                status = CommissioningError::ErrNotCommissioning.code();
                            },
                        }
                    }
                },
            }
        },
        None => {
            return Err(IMStatusCode::Failure);
        },
    }
    resp.push(build_cmd_resp(5, status));
    proof {
        assert(final(resp)@.drop_last() =~= old(resp)@);
    }
    trans.complete();
    Ok(())
}

/// The General Commissioning cluster object: the generic cluster with this
/// cluster's attributes, commands and state installed.
pub struct GenCommCluster {
    pub base: Cluster,
}

/// The cluster's attribute table: breadcrumb, regulatory config, location
/// capability and the cluster-encoded basic commissioning info.
pub open spec fn spec_gencomm_attributes() -> Seq<Attribute> {
    seq![
        Attribute { id: 0, value: AttrValue::Uint64(0) },
        Attribute { id: 2, value: AttrValue::Uint8(2) },
        Attribute { id: 3, value: AttrValue::Uint8(2) },
        Attribute { id: 1, value: AttrValue::Custom },
    ]
}

/// The cluster's command table: arm-failsafe under id 0, set-regulatory-
/// config under id 2, commissioning-complete under id 4.
pub open spec fn spec_gencomm_commands() -> Seq<Command> {
    seq![
        Command { id: 0, cb: CmdHandler::ArmFailsafe },
        Command { id: 2, cb: CmdHandler::SetRegulatoryConfig },
        Command { id: 4, cb: CmdHandler::CommissioningComplete },
    ]
}

impl GenCommCluster {
    /// The cluster carries exactly its command table, so invokes route to
    /// the three commissioning handlers and to nothing else.
    pub open spec fn wf(&self) -> bool {
        &&& self.base.wf()
        &&& self.base.id == ID
        &&& self.base.commands@ == spec_gencomm_commands()
    }

    /// Builds the cluster: exactly the four attributes and three commands of
    /// its tables, and state with a two-minute expiry window and a disarmed
    /// failsafe.
    pub fn new() -> (r: Result<GenCommCluster, Error>)
        ensures
            r matches Ok(c) && c.wf() && c.base.id == ID && spec_gencomm_state(c.base) == Some(
                GenCommState {
                    expiry_len: 120,
                    failsafe: FailSafe { state: FailSafeState::Disarmed },
                    reg_location: RegLocationType::IndoorOutdoor.spec_code(),
                },
            ) && c.base.attributes@ == spec_gencomm_attributes() && c.base.commands@
                == spec_gencomm_commands(),
    {
        let mut base = match Cluster::new(ID) {
            Ok(c) => c,
            Err(e) => {
                return Err(e);
            },
        };
        let a0 = match attr_bread_crumb_new(0) {
            Ok(a) => a,
            Err(e) => {
                return Err(e);
            },
        };
        match base.add_attribute(a0) {
            Ok(()) => {},
            Err(e) => {
                return Err(e);
            },
        }
        let a1 = match attr_reg_config_new(RegLocationType::IndoorOutdoor) {
            Ok(a) => a,
            Err(e) => {
                return Err(e);
            },
        };
        match base.add_attribute(a1) {
            Ok(()) => {},
            Err(e) => {
                return Err(e);
            },
        }
        let a2 = match attr_location_capability_new(RegLocationType::IndoorOutdoor) {
            Ok(a) => a,
            Err(e) => {
                return Err(e);
            },
        };
        match base.add_attribute(a2) {
            Ok(()) => {},
            Err(e) => {
                return Err(e);
            },
        }
        let a3 = match attr_comm_info_new() {
            Ok(a) => a,
            Err(e) => {
                return Err(e);
            },
        };
        match base.add_attribute(a3) {
            Ok(()) => {},
            Err(e) => {
                return Err(e);
            },
        }
        let c0 = match Command::new(0, CmdHandler::ArmFailsafe) {
            Ok(c) => c,
            Err(e) => {
                return Err(e);
            },
        };
        match base.add_command(c0) {
            Ok(()) => {},
            Err(e) => {
                return Err(e);
            },
        }
        let c1 = match Command::new(2, CmdHandler::SetRegulatoryConfig) {
            Ok(c) => c,
            Err(e) => {
                return Err(e);
            },
        };
        match base.add_command(c1) {
            Ok(()) => {},
            Err(e) => {
                return Err(e);
            },
        }
        let c2 = match Command::new(4, CmdHandler::CommissioningComplete) {
            Ok(c) => c,
            Err(e) => {
                return Err(e);
            },
        };
        match base.add_command(c2) {
            Ok(()) => {},
            Err(e) => {
                return Err(e);
            },
        }
        base.set_data(
            ClusterData::GenComm(
                GenCommState {
                    expiry_len: 120,
                    failsafe: FailSafe::new(),
                    reg_location: RegLocationType::IndoorOutdoor.code(),
                },
            ),
        );
        proof {
            assert(base.attributes@ =~= spec_gencomm_attributes());
            assert(base.commands@ =~= spec_gencomm_commands());
        }
        Ok(GenCommCluster { base })
    }

    /// The current failsafe, for observation.
    pub fn failsafe(&self) -> (r: Option<FailSafe>)
        ensures
            match spec_gencomm_state(self.base) {
                Some(s) => r == Some(s.failsafe),
                None => r is None,
            },
    {
        match &self.base.data {
            Some(ClusterData::GenComm(s)) => Some(s.failsafe),
            None => None,
        }
    }

    /// Encodes an attribute only this cluster can encode: the basic
    /// commissioning info is a struct holding the expiry window length.
    pub fn read_custom_attribute(&self, attr_id: u16) -> (r: Result<TLVElement, IMStatusCode>)
        ensures
            match r {
                Ok(e) => {
                    &&& attr_id == 1
                    &&& spec_gencomm_state(self.base) matches Some(s)
                    &&& e@ == (TlvNode {
                        tag: TagType::Anonymous,
                        value: TlvTree::Struct(
                            seq![
                                TlvNode {
                                    tag: TagType::Context(0),
                                    value: TlvTree::U16(s.expiry_len),
                                },
                            ],
                        ),
                    })
                },
                Err(e) => {
                    &&& (attr_id != 1 || spec_gencomm_state(self.base) is None)
                    &&& e == IMStatusCode::UnsupportedAttribute
                },
            },
    {
        if attr_id != 1 {
            return Err(IMStatusCode::UnsupportedAttribute);
        }
        let expiry_len = match &self.base.data {
            Some(ClusterData::GenComm(s)) => s.expiry_len,
            None => {
                return Err(IMStatusCode::UnsupportedAttribute);
            },
        };
        let mut fields: Vec<TLVElement> = Vec::new();
        fields.push(TLVElement { tag: TagType::Context(0), value: TLVValue::U16(expiry_len) });
        let r = TLVElement { tag: TagType::Anonymous, value: TLVValue::Struct(fields) };
        proof {
            crate::tlv::lemma_elems_view(fields@);
            assert(crate::tlv::elems_view(fields@) =~= seq![
                TlvNode { tag: TagType::Context(0), value: TlvTree::U16(expiry_len) },
            ]);
        }
        Ok(r)
    }

    /// Arms the failsafe on behalf of the caller's session.
    pub fn handle_command_armfailsafe(
        &mut self,
        req: &CommandReq,
        resp: &mut Vec<TLVElement>,
        trans: &mut Transaction,
    ) -> (r: Result<(), IMStatusCode>)
        requires
            req.now <= u64::MAX - 0xffff * 1000,
        ensures
            arm_failsafe_rel(
                old(self).base,
                final(self).base,
                *req,
                old(resp)@,
                final(resp)@,
                *old(trans),
                *final(trans),
                r,
            ),
    {
        cmd_arm_failsafe(&mut self.base, req, resp, trans)
    }

    /// Records the regulatory configuration.
    pub fn handle_command_setregulatoryconfig(
        &mut self,
        req: &CommandReq,
        resp: &mut Vec<TLVElement>,
        trans: &mut Transaction,
    ) -> (r: Result<(), IMStatusCode>)
        ensures
            set_reg_rel(
                old(self).base,
                final(self).base,
                *req,
                old(resp)@,
                final(resp)@,
                *old(trans),
                *final(trans),
                r,
            ),
    {
        cmd_set_regulatory_config(&mut self.base, req, resp, trans)
    }

    /// Completes commissioning.
    pub fn handle_command_commissioningcomplete(
        &mut self,
        req: &CommandReq,
        resp: &mut Vec<TLVElement>,
        trans: &mut Transaction,
    ) -> (r: Result<(), IMStatusCode>)
        ensures
            commissioning_complete_rel(
                old(self).base,
                final(self).base,
                *req,
                old(resp)@,
                final(resp)@,
                *old(trans),
                *final(trans),
                r,
            ),
    {
        cmd_commissioning_complete(&mut self.base, req, resp, trans)
    }

    /// Routes an invoke at this cluster: command id 0 arms the failsafe, 2
    /// records the regulatory config, 4 completes commissioning; a wildcard
    /// or any other id (the response ids among them) is unsupported.
    pub fn handle_command(
        &mut self,
        req: &CommandReq,
        resp: &mut Vec<TLVElement>,
        trans: &mut Transaction,
    ) -> (r: Result<(), IMStatusCode>)
        requires
            old(self).wf(),
            req.now <= u64::MAX - 0xffff * 1000,
        ensures
            final(self).wf(),
            if req.cmd_path_ib.command == Some(0u16) {
                arm_failsafe_rel(
                    old(self).base,
                    final(self).base,
                    *req,
                    old(resp)@,
                    final(resp)@,
                    *old(trans),
                    *final(trans),
                    r,
                )
            } else if req.cmd_path_ib.command == Some(2u16) {
                set_reg_rel(
                    old(self).base,
                    final(self).base,
                    *req,
                    old(resp)@,
                    final(resp)@,
                    *old(trans),
                    *final(trans),
                    r,
                )
            } else if req.cmd_path_ib.command == Some(4u16) {
                commissioning_complete_rel(
                    old(self).base,
                    final(self).base,
                    *req,
                    old(resp)@,
                    final(resp)@,
                    *old(trans),
                    *final(trans),
                    r,
                )
            } else {
                &&& r == Err::<(), IMStatusCode>(IMStatusCode::UnsupportedCommand)
                &&& *final(self) == *old(self)
                &&& final(resp)@ == old(resp)@
                &&& *final(trans) == *old(trans)
            },
    {
        proof {
            let cs = spec_gencomm_commands();
            assert(cs.drop_first() =~= seq![
                Command { id: 2, cb: CmdHandler::SetRegulatoryConfig },
                Command { id: 4, cb: CmdHandler::CommissioningComplete },
            ]);
            assert(cs.drop_first().drop_first() =~= seq![
                Command { id: 4, cb: CmdHandler::CommissioningComplete },
            ]);
            assert(cs.drop_first().drop_first().drop_first() =~= Seq::<Command>::empty());
            assert(crate::objects::spec_cmd_lookup(cs, 0) == Some(cs[0]));
            assert(crate::objects::spec_cmd_lookup(cs.drop_first(), 2) == Some(
                cs.drop_first()[0],
            ));
            assert(crate::objects::spec_cmd_lookup(cs, 2) == Some(cs[1]));
            assert(crate::objects::spec_cmd_lookup(cs.drop_first().drop_first(), 4) == Some(
                cs.drop_first().drop_first()[0],
            ));
            assert(crate::objects::spec_cmd_lookup(cs.drop_first(), 4) == Some(
                cs.drop_first().drop_first()[0],
            ));
            assert(crate::objects::spec_cmd_lookup(cs, 4) == Some(cs[2]));
            if req.cmd_path_ib.command is Some {
                let cid = req.cmd_path_ib.command->0;
                if cid != 0 && cid != 2 && cid != 4 {
                    assert(crate::objects::spec_cmd_lookup(cs, cid)
                        == crate::objects::spec_cmd_lookup(cs.drop_first(), cid));
                    assert(crate::objects::spec_cmd_lookup(cs.drop_first(), cid)
                        == crate::objects::spec_cmd_lookup(cs.drop_first().drop_first(), cid));
                    assert(crate::objects::spec_cmd_lookup(cs.drop_first().drop_first(), cid)
                        == crate::objects::spec_cmd_lookup(
                        cs.drop_first().drop_first().drop_first(),
                        cid,
                    ));
                    assert(crate::objects::spec_cmd_lookup(
                        cs.drop_first().drop_first().drop_first(),
                        cid,
                    ) is None);
                }
            }
        }
        self.base.handle_command(req, resp, trans)
    }
}

} // verus!
