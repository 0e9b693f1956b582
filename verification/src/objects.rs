//! The data model: a node owns endpoints, an endpoint owns clusters, a
//! cluster owns attributes and commands, all in bounded tables. Paths with
//! wildcard components expand to every matching entity.

use crate::error::{Error, IMStatusCode};
use crate::tlv::{TLVElement, TLVValue, TagType, TlvNode, TlvTree};
use vstd::prelude::*;

verus! {

pub const ENDPTS_PER_ACC: usize = 3;

pub const CLUSTERS_PER_ENDPT: usize = 4;

pub const ATTRS_PER_CLUSTER: usize = 4;

pub const CMDS_PER_CLUSTER: usize = 8;

/// An attribute value: integers, booleans, or a custom value the owning
/// cluster encodes itself.
#[derive(Clone, Copy, Debug, PartialEq, Eq, Structural)]
pub enum AttrValue {
    Int8(i8),
    Int64(i64),
    Uint8(u8),
    Uint16(u16),
    Uint64(u64),
    Bool(bool),
    Custom,
}

/// The TLV form of an attribute value, for the kinds that have one.
pub open spec fn spec_attr_tlv(v: AttrValue, tag: TagType) -> Option<TlvNode> {
    match v {
        AttrValue::Bool(b) => Some(TlvNode { tag, value: TlvTree::Bool(b) }),
        AttrValue::Int8(x) => Some(TlvNode { tag, value: TlvTree::I8(x) }),
        AttrValue::Int64(x) => Some(TlvNode { tag, value: TlvTree::I64(x) }),
        AttrValue::Uint8(x) => Some(TlvNode { tag, value: TlvTree::U8(x) }),
        AttrValue::Uint16(x) => Some(TlvNode { tag, value: TlvTree::U16(x) }),
        AttrValue::Uint64(x) => Some(TlvNode { tag, value: TlvTree::U64(x) }),
        AttrValue::Custom => None,
    }
}

impl AttrValue {
    /// The TLV element for this value; a custom value has none and must be
    /// encoded by its cluster.
    pub fn to_tlv(&self, tag: TagType) -> (r: Result<TLVElement, Error>)
        ensures
            match r {
                Ok(e) => spec_attr_tlv(*self, tag) == Some(e@),
                Err(er) => spec_attr_tlv(*self, tag) is None && er == Error::Invalid,
            },
    {
        match self {
            AttrValue::Bool(b) => Ok(TLVElement { tag, value: TLVValue::Bool(*b) }),
            AttrValue::Int8(x) => Ok(TLVElement { tag, value: TLVValue::I8(*x) }),
            AttrValue::Int64(x) => Ok(TLVElement { tag, value: TLVValue::I64(*x) }),
            AttrValue::Uint8(x) => Ok(TLVElement { tag, value: TLVValue::U8(*x) }),
            AttrValue::Uint16(x) => Ok(TLVElement { tag, value: TLVValue::U16(*x) }),
            AttrValue::Uint64(x) => Ok(TLVElement { tag, value: TLVValue::U64(*x) }),
            AttrValue::Custom => Err(Error::Invalid),
        }
    }
}

/// One attribute of a cluster.
#[derive(Clone, Copy, Debug, PartialEq, Eq, Structural)]
pub struct Attribute {
    pub id: u16,
    pub value: AttrValue,
}

impl Attribute {
    pub fn new(id: u16, val: AttrValue) -> (r: Result<Attribute, Error>)
        ensures
            r matches Ok(a) && a.id == id && a.value == val,
    {
        Ok(Attribute { id, value: val })
    }
}

impl Default for Attribute {
    /// The placeholder attribute: id 0, value true.
    fn default() -> (r: Attribute)
        ensures
            r.id == 0 && r.value == AttrValue::Bool(true),
    {
        Attribute { id: 0, value: AttrValue::Bool(true) }
    }
}

/// Which handler a command runs; the commissioning cluster's commands are
/// the handlers this library knows.
#[derive(Clone, Copy, Debug, PartialEq, Eq, Structural)]
pub enum CmdHandler {
    ArmFailsafe,
    SetRegulatoryConfig,
    CommissioningComplete,
}

/// One command of a cluster: its id and its handler.
#[derive(Clone, Copy, Debug, PartialEq, Eq, Structural)]
pub struct Command {
    pub id: u16,
    pub cb: CmdHandler,
}

impl Command {
    pub fn new(id: u16, cb: CmdHandler) -> (r: Result<Command, Error>)
        ensures
            r matches Ok(c) && c.id == id && c.cb == cb,
    {
        Ok(Command { id, cb })
    }
}

/// One attribute report of a read: the concrete path and the value.
#[derive(Clone, Copy, Debug, PartialEq, Eq, Structural)]
pub struct AttrReport {
    pub endpoint: u16,
    pub cluster: u32,
    pub attr: u16,
    pub value: AttrValue,
}

/// The report a read of one attribute emits.
pub open spec fn spec_report(endpoint: u16, cluster: u32, a: Attribute) -> AttrReport {
    AttrReport { endpoint, cluster, attr: a.id, value: a.value }
}

/// Cluster-specific long-lived state, a closed union.
pub enum ClusterData {
    GenComm(crate::gen_comm::GenCommState),
}

/// The first position of an attribute id.
pub open spec fn spec_attr_index(attrs: Seq<Attribute>, id: u16) -> Option<int>
    decreases attrs,
{
    if attrs.len() == 0 {
        None
    } else if attrs[0].id == id {
        Some(0)
    } else {
        match spec_attr_index(attrs.drop_first(), id) {
            Some(i) => Some(i + 1),
            None => None,
        }
    }
}

/// What a first-position search returns: a valid position with the id, with
/// nothing matching before it; or nothing matching at all.
pub proof fn lemma_attr_index(attrs: Seq<Attribute>, id: u16)
    ensures
        match spec_attr_index(attrs, id) {
            Some(i) => 0 <= i < attrs.len() && attrs[i].id == id && forall|j: int|
                0 <= j < i ==> attrs[j].id != id,
            None => forall|j: int| 0 <= j < attrs.len() ==> attrs[j].id != id,
        },
    decreases attrs,
{
    if attrs.len() > 0 {
        lemma_attr_index(attrs.drop_first(), id);
        if attrs[0].id != id {
            assert forall|j: int| 1 <= j < attrs.len() implies attrs[j]
                == attrs.drop_first()[j - 1] by {}
        }
    }
}

/// A cluster: its id, bounded attribute and command tables, and an optional
/// slot of cluster-specific state.
pub struct Cluster {
    pub id: u32,
    pub attributes: Vec<Attribute>,
    pub commands: Vec<Command>,
    pub data: Option<ClusterData>,
}

impl Cluster {
    pub open spec fn wf(&self) -> bool {
        &&& self.attributes@.len() <= ATTRS_PER_CLUSTER
        &&& self.commands@.len() <= CMDS_PER_CLUSTER
    }

    pub fn new(id: u32) -> (r: Result<Cluster, Error>)
        ensures
            r matches Ok(c) && c.wf() && c.id == id && c.attributes@.len() == 0
                && c.commands@.len() == 0 && c.data is None,
    {
        Ok(Cluster { id, attributes: Vec::new(), commands: Vec::new(), data: None })
    }

    /// Installs cluster-specific state.
    pub fn set_data(&mut self, data: ClusterData)
        ensures
            final(self).data == Some(data),
            final(self).id == old(self).id,
            final(self).attributes == old(self).attributes,
            final(self).commands == old(self).commands,
    {
        self.data = Some(data);
    }

    /// The cluster-specific state, for reading and mutating in place.
    pub fn get_data(&mut self) -> (r: Option<&mut ClusterData>)
        ensures
            match r {
                Some(d) => {
                    &&& old(self).data matches Some(od) && *d == od
                    &&& final(self).data == Some(*final(d))
                    &&& final(self).id == old(self).id
                    &&& final(self).attributes == old(self).attributes
                    &&& final(self).commands == old(self).commands
                },
                None => old(self).data is None && *final(self) == *old(self),
            },
    {
        match &mut self.data {
            Some(d) => Some(d),
            None => None,
        }
    }

    /// Drops the cluster-specific state.
    pub fn clear_data(&mut self)
        ensures
            final(self).data is None,
            final(self).id == old(self).id,
            final(self).attributes == old(self).attributes,
            final(self).commands == old(self).commands,
    {
        self.data = None;
    }

    /// Adds an attribute to the bounded table; `NoSpace` when it is full.
    pub fn add_attribute(&mut self, attr: Attribute) -> (r: Result<(), Error>)
        requires
            old(self).wf(),
        ensures
            final(self).wf(),
            final(self).id == old(self).id,
            final(self).commands == old(self).commands,
            final(self).data == old(self).data,
            match r {
                Ok(()) => {
                    &&& old(self).attributes@.len() < ATTRS_PER_CLUSTER
                    &&& final(self).attributes@ == old(self).attributes@.push(attr)
                },
                Err(e) => {
                    &&& old(self).attributes@.len() == ATTRS_PER_CLUSTER
                    &&& e == Error::NoSpace
                    &&& final(self).attributes == old(self).attributes
                },
            },
    {
        if self.attributes.len() < ATTRS_PER_CLUSTER {
            self.attributes.push(attr);
            Ok(())
        } else {
            Err(Error::NoSpace)
        }
    }

    /// Adds a command to the bounded table; `NoSpace` when it is full.
    pub fn add_command(&mut self, command: Command) -> (r: Result<(), Error>)
        requires
            old(self).wf(),
        ensures
            final(self).wf(),
            final(self).id == old(self).id,
            final(self).attributes == old(self).attributes,
            final(self).data == old(self).data,
            match r {
                Ok(()) => {
                    &&& old(self).commands@.len() < CMDS_PER_CLUSTER
                    &&& final(self).commands@ == old(self).commands@.push(command)
                },
                Err(e) => {
                    &&& old(self).commands@.len() == CMDS_PER_CLUSTER
                    &&& e == Error::NoSpace
                    &&& final(self).commands == old(self).commands
                },
            },
    {
        if self.commands.len() < CMDS_PER_CLUSTER {
            self.commands.push(command);
            Ok(())
        } else {
            Err(Error::NoSpace)
        }
    }

    /// The position of the attribute with this id, if the cluster has one.
    pub fn get_attribute_index(&self, attr_id: u16) -> (r: Option<usize>)
        ensures
            match r {
                Some(i) => spec_attr_index(self.attributes@, attr_id) == Some(i as int),
                None => spec_attr_index(self.attributes@, attr_id) is None,
            },
    {
        proof {
            lemma_attr_index(self.attributes@, attr_id);
        }
        let n = self.attributes.len();
        let mut i: usize = 0;
        while i < n
            invariant
                i <= n,
                n == self.attributes@.len(),
                forall|j: int| 0 <= j < i ==> self.attributes@[j].id != attr_id,
                match spec_attr_index(self.attributes@, attr_id) {
                    Some(k) => 0 <= k < n && self.attributes@[k].id == attr_id && forall|j: int|
                        0 <= j < k ==> self.attributes@[j].id != attr_id,
                    None => forall|j: int| 0 <= j < n ==> self.attributes@[j].id != attr_id,
                },
            decreases n - i,
        {
            if self.attributes[i].id == attr_id {
                return Some(i);
            }
            i = i + 1;
        }
        None
    }

    /// The index range of the attributes a read addresses: all of them for a
    /// wildcard, the one named otherwise.
    pub fn get_wildcard_attribute(&self, attribute: Option<u16>) -> (r: Result<
        (usize, usize),
        IMStatusCode,
    >)
        ensures
            match r {
                Ok((start, end)) => {
                    &&& start <= end <= self.attributes@.len()
                    &&& match attribute {
                        None => start == 0 && end == self.attributes@.len(),
                        Some(a) => spec_attr_index(self.attributes@, a) == Some(start as int)
                            && end == start + 1,
                    }
                },
                Err(e) => {
                    &&& attribute matches Some(a) && spec_attr_index(self.attributes@, a) is None
                    &&& e == IMStatusCode::UnsupportedAttribute
                },
            },
    {
        match attribute {
            Some(a) => {
                match self.get_attribute_index(a) {
                    Some(i) => {
                        let n = self.attributes.len();
                        proof {
                            lemma_attr_index(self.attributes@, a);
                        }
                        Ok((i, i + 1))
                    },
                    None => Err(IMStatusCode::UnsupportedAttribute),
                }
            },
            None => Ok((0, self.attributes.len())),
        }
    }

    /// Reads the addressed attributes: appends one report per match, in
    /// table order, under this cluster's id and the given endpoint id.
    pub fn handle_attrs_read(
        &self,
        endpoint: u16,
        attribute: Option<u16>,
        reports: &mut Vec<AttrReport>,
    ) -> (r: Result<(), IMStatusCode>)
        ensures
            match r {
                Ok(()) => {
                    &&& match attribute {
                        None => final(reports)@ == old(reports)@ + Seq::new(
                            self.attributes@.len(),
                            |k: int| spec_report(endpoint, self.id, self.attributes@[k]),
                        ),
                        Some(a) => {
                            &&& spec_attr_index(self.attributes@, a) matches Some(i)
                            &&& final(reports)@ == old(reports)@.push(
                                spec_report(endpoint, self.id, self.attributes@[i]),
                            )
                        },
                    }
                },
                Err(e) => {
                    &&& attribute matches Some(a) && spec_attr_index(self.attributes@, a) is None
                    &&& e == IMStatusCode::UnsupportedAttribute
                    &&& final(reports)@ == old(reports)@
                },
            },
    {
        let (start, end) = match self.get_wildcard_attribute(attribute) {
            Ok(p) => p,
            Err(e) => {
                return Err(e);
            },
        };
        let mut i: usize = start;
        while i < end
            invariant
                start <= i <= end <= self.attributes@.len(),
                reports@ == old(reports)@ + Seq::new(
                    (i - start) as nat,
                    |k: int| spec_report(endpoint, self.id, self.attributes@[start + k]),
                ),
            decreases end - i,
        {
            let a = self.attributes[i];
            reports.push(AttrReport { endpoint, cluster: self.id, attr: a.id, value: a.value });
            proof {
                assert(reports@ =~= old(reports)@ + Seq::new(
                    (i + 1 - start) as nat,
                    |k: int| spec_report(endpoint, self.id, self.attributes@[start + k]),
                ));
            }
            i = i + 1;
        }
        proof {
            match attribute {
                None => {
                    assert(reports@ =~= old(reports)@ + Seq::new(
                        self.attributes@.len(),
                        |k: int| spec_report(endpoint, self.id, self.attributes@[k]),
                    ));
                },
                Some(a) => {
                    assert(reports@ =~= old(reports)@.push(
                        spec_report(endpoint, self.id, self.attributes@[start as int]),
                    ));
                },
            }
        }
        Ok(())
    }
}

/// The first command carrying this id.
pub open spec fn spec_cmd_lookup(cmds: Seq<Command>, id: u16) -> Option<Command>
    decreases cmds,
{
    if cmds.len() == 0 {
        None
    } else if cmds[0].id == id {
        Some(cmds[0])
    } else {
        spec_cmd_lookup(cmds.drop_first(), id)
    }
}

/// Skipping a matchless prefix does not change the first match.
proof fn lemma_cmd_lookup_skip(cmds: Seq<Command>, id: u16, i: int)
    requires
        0 <= i <= cmds.len(),
        forall|j: int| 0 <= j < i ==> cmds[j].id != id,
    ensures
        spec_cmd_lookup(cmds, id) == spec_cmd_lookup(cmds.skip(i), id),
    decreases i,
{
    if i == 0 {
        assert(cmds.skip(0) =~= cmds);
    } else {
        assert forall|j: int| 0 <= j < i - 1 implies cmds.drop_first()[j].id != id by {
            assert(cmds.drop_first()[j] == cmds[j + 1]);
        }
        lemma_cmd_lookup_skip(cmds.drop_first(), id, i - 1);
        assert(cmds.drop_first().skip(i - 1) =~= cmds.skip(i));
    }
}

impl Cluster {
    /// The handler of the command with this id, if the cluster has one.
    fn get_command_cb(&self, cid: u16) -> (r: Option<CmdHandler>)
        ensures
            match spec_cmd_lookup(self.commands@, cid) {
                Some(c) => r == Some(c.cb),
                None => r is None,
            },
    {
        let n = self.commands.len();
        let mut i: usize = 0;
        while i < n
            invariant
                i <= n,
                n == self.commands@.len(),
                forall|j: int| 0 <= j < i ==> self.commands@[j].id != cid,
            decreases n - i,
        {
            if self.commands[i].id == cid {
                proof {
                    lemma_cmd_lookup_skip(self.commands@, cid, i as int);
                    assert(self.commands@.skip(i as int)[0] == self.commands@[i as int]);
                }
                return Some(self.commands[i].cb);
            }
            i = i + 1;
        }
        proof {
            lemma_cmd_lookup_skip(self.commands@, cid, n as int);
            assert(self.commands@.skip(n as int) =~= Seq::<Command>::empty());
        }
        None
    }

    /// Routes an invoke to the command it names and runs that command's
    /// handler; a wildcard or unknown command id is unsupported.
    pub fn handle_command(
        &mut self,
        req: &crate::im::CommandReq,
        resp: &mut Vec<TLVElement>,
        trans: &mut crate::im::Transaction,
    ) -> (r: Result<(), IMStatusCode>)
        requires
            req.now <= u64::MAX - 0xffff * 1000,
        ensures
            match req.cmd_path_ib.command {
                None => {
                    &&& r == Err::<(), IMStatusCode>(IMStatusCode::UnsupportedCommand)
                    &&& *final(self) == *old(self) && final(resp)@ == old(resp)@ && *final(trans)
                        == *old(trans)
                },
                Some(cid) => match spec_cmd_lookup(old(self).commands@, cid) {
                    None => {
                        &&& r == Err::<(), IMStatusCode>(IMStatusCode::UnsupportedCommand)
                        &&& *final(self) == *old(self) && final(resp)@ == old(resp)@
                        &&& *final(trans) == *old(trans)
                    },
                    Some(cmd) => match cmd.cb {
                        CmdHandler::ArmFailsafe => crate::gen_comm::arm_failsafe_rel(
                            *old(self),
                            *final(self),
                            *req,
                            old(resp)@,
                            final(resp)@,
                            *old(trans),
                            *final(trans),
                            r,
                        ),
                        CmdHandler::SetRegulatoryConfig => crate::gen_comm::set_reg_rel(
                            *old(self),
                            *final(self),
                            *req,
                            old(resp)@,
                            final(resp)@,
                            *old(trans),
                            *final(trans),
                            r,
                        ),
                        CmdHandler::CommissioningComplete => (
                        crate::gen_comm::commissioning_complete_rel(
                            *old(self),
                            *final(self),
                            *req,
                            old(resp)@,
                            final(resp)@,
                            *old(trans),
                            *final(trans),
                            r,
                        )),
                    },
                },
            },
    {
        let cid = match req.cmd_path_ib.command {
            Some(c) => c,
            None => {
                return Err(IMStatusCode::UnsupportedCommand);
            },
        };
        let cb = match self.get_command_cb(cid) {
            Some(cb) => cb,
            None => {
                return Err(IMStatusCode::UnsupportedCommand);
            },
        };
        match cb {
            CmdHandler::ArmFailsafe => crate::gen_comm::cmd_arm_failsafe(self, req, resp, trans),
            CmdHandler::SetRegulatoryConfig => crate::gen_comm::cmd_set_regulatory_config(
                self,
                req,
                resp,
                trans,
            ),
            CmdHandler::CommissioningComplete => crate::gen_comm::cmd_commissioning_complete(
                self,
                req,
                resp,
                trans,
            ),
        }
    }
}

/// The first position of a cluster id.
pub open spec fn spec_cluster_index(cs: Seq<Cluster>, id: u32) -> Option<int>
    decreases cs,
{
    if cs.len() == 0 {
        None
    } else if cs[0].id == id {
        Some(0)
    } else {
        match spec_cluster_index(cs.drop_first(), id) {
            Some(i) => Some(i + 1),
            None => None,
        }
    }
}

/// What a first-position search returns, as for attributes.
pub proof fn lemma_cluster_index(cs: Seq<Cluster>, id: u32)
    ensures
        match spec_cluster_index(cs, id) {
            Some(i) => 0 <= i < cs.len() && cs[i].id == id && forall|j: int|
                0 <= j < i ==> cs[j].id != id,
            None => forall|j: int| 0 <= j < cs.len() ==> cs[j].id != id,
        },
    decreases cs,
{
    if cs.len() > 0 {
        lemma_cluster_index(cs.drop_first(), id);
        if cs[0].id != id {
            assert forall|j: int| 1 <= j < cs.len() implies cs[j] == cs.drop_first()[j - 1] by {}
        }
    }
}

/// An endpoint: a bounded table of clusters.
pub struct Endpoint {
    pub clusters: Vec<Cluster>,
}

impl Endpoint {
    pub open spec fn wf(&self) -> bool {
        &&& self.clusters@.len() <= CLUSTERS_PER_ENDPT
        &&& forall|i: int| 0 <= i < self.clusters@.len() ==> (#[trigger] self.clusters@[i]).wf()
    }

    pub fn new() -> (r: Result<Endpoint, Error>)
        ensures
            r matches Ok(e) && e.wf() && e.clusters@.len() == 0,
    {
        Ok(Endpoint { clusters: Vec::new() })
    }

    /// Adds a cluster to the bounded table; `NoSpace` when it is full.
    pub fn add_cluster(&mut self, cluster: Cluster) -> (r: Result<(), Error>)
        requires
            old(self).wf(),
            cluster.wf(),
        ensures
            final(self).wf(),
            match r {
                Ok(()) => {
                    &&& old(self).clusters@.len() < CLUSTERS_PER_ENDPT
                    &&& final(self).clusters@ == old(self).clusters@.push(cluster)
                },
                Err(e) => {
                    &&& old(self).clusters@.len() == CLUSTERS_PER_ENDPT
                    &&& e == Error::NoSpace
                    &&& final(self).clusters == old(self).clusters
                },
            },
    {
        if self.clusters.len() < CLUSTERS_PER_ENDPT {
            self.clusters.push(cluster);
            Ok(())
        } else {
            Err(Error::NoSpace)
        }
    }

    /// The position of the cluster with this id, if the endpoint has one.
    pub fn get_cluster_index(&self, cluster_id: u32) -> (r: Option<usize>)
        ensures
            match r {
                Some(i) => spec_cluster_index(self.clusters@, cluster_id) == Some(i as int),
                None => spec_cluster_index(self.clusters@, cluster_id) is None,
            },
    {
        proof {
            lemma_cluster_index(self.clusters@, cluster_id);
        }
        let n = self.clusters.len();
        let mut i: usize = 0;
        while i < n
            invariant
                i <= n,
                n == self.clusters@.len(),
                forall|j: int| 0 <= j < i ==> self.clusters@[j].id != cluster_id,
                match spec_cluster_index(self.clusters@, cluster_id) {
                    Some(k) => 0 <= k < n && self.clusters@[k].id == cluster_id && forall|j: int|
                        0 <= j < k ==> self.clusters@[j].id != cluster_id,
                    None => forall|j: int| 0 <= j < n ==> self.clusters@[j].id != cluster_id,
                },
            decreases n - i,
        {
            if self.clusters[i].id == cluster_id {
                return Some(i);
            }
            i = i + 1;
        }
        None
    }

    /// The cluster with this id, for reading and mutating in place.
    pub fn get_cluster(&mut self, cluster_id: u32) -> (r: Result<&mut Cluster, Error>)
        ensures
            match r {
                Ok(c) => {
                    &&& spec_cluster_index(old(self).clusters@, cluster_id) matches Some(i)
                    &&& *c == old(self).clusters@[i]
                    &&& final(self).clusters@ == old(self).clusters@.update(i, *final(c))
                },
                Err(e) => {
                    &&& spec_cluster_index(old(self).clusters@, cluster_id) is None
                    &&& e == Error::ClusterNotFound
                    &&& *final(self) == *old(self)
                },
            },
    {
        match self.get_cluster_index(cluster_id) {
            Some(i) => {
                proof {
                    lemma_cluster_index(self.clusters@, cluster_id);
                }
                Ok(&mut self.clusters[i])
            },
            None => Err(Error::ClusterNotFound),
        }
    }

    /// The index range of the clusters a read addresses.
    pub fn get_wildcard_clusters(&self, cluster: Option<u32>) -> (r: Result<
        (usize, usize),
        IMStatusCode,
    >)
        ensures
            match r {
                Ok((start, end)) => {
                    &&& start <= end <= self.clusters@.len()
                    &&& match cluster {
                        None => start == 0 && end == self.clusters@.len(),
                        Some(c) => spec_cluster_index(self.clusters@, c) == Some(start as int)
                            && end == start + 1,
                    }
                },
                Err(e) => {
                    &&& cluster matches Some(c) && spec_cluster_index(self.clusters@, c) is None
                    &&& e == IMStatusCode::UnsupportedCluster
                },
            },
    {
        match cluster {
            Some(c) => {
                match self.get_cluster_index(c) {
                    Some(i) => {
                        let n = self.clusters.len();
                        proof {
                            lemma_cluster_index(self.clusters@, c);
                        }
                        Ok((i, i + 1))
                    },
                    None => Err(IMStatusCode::UnsupportedCluster),
                }
            },
            None => Ok((0, self.clusters.len())),
        }
    }
}

/// A node: a bounded table of endpoints, addressed by position.
pub struct Node {
    pub endpoints: Vec<Endpoint>,
}

/// The reports of one cluster for an attribute selector, if all address
/// existing attributes.
pub open spec fn spec_cluster_read(eid: u16, c: Cluster, attribute: Option<u16>) -> Option<
    Seq<AttrReport>,
> {
    match attribute {
        None => Some(
            Seq::new(c.attributes@.len(), |k: int| spec_report(eid, c.id, c.attributes@[k])),
        ),
        Some(a) => match spec_attr_index(c.attributes@, a) {
            Some(i) => Some(seq![spec_report(eid, c.id, c.attributes@[i])]),
            None => None,
        },
    }
}

/// The reports of the clusters in `[start, end)`, in order.
pub open spec fn spec_clusters_read_range(
    eid: u16,
    cs: Seq<Cluster>,
    start: int,
    end: int,
    attribute: Option<u16>,
) -> Option<Seq<AttrReport>>
    decreases end - start,
{
    if start >= end {
        Some(Seq::empty())
    } else if start < 0 || end > cs.len() {
        None
    } else {
        match (spec_cluster_read(eid, cs[start], attribute), spec_clusters_read_range(
            eid,
            cs,
            start + 1,
            end,
            attribute,
        )) {
            (Some(h), Some(t)) => Some(h + t),
            _ => None,
        }
    }
}

/// The reports of one endpoint for a cluster selector.
pub open spec fn spec_endpoint_read(
    eid: u16,
    cs: Seq<Cluster>,
    cluster: Option<u32>,
    attribute: Option<u16>,
) -> Option<Seq<AttrReport>> {
    match cluster {
        None => spec_clusters_read_range(eid, cs, 0, cs.len() as int, attribute),
        Some(cid) => match spec_cluster_index(cs, cid) {
            Some(i) => spec_cluster_read(eid, cs[i], attribute),
            None => None,
        },
    }
}

/// The reports of the endpoints in `[start, end)`, in order.
pub open spec fn spec_read_range(
    eps: Seq<Endpoint>,
    start: int,
    end: int,
    cluster: Option<u32>,
    attribute: Option<u16>,
) -> Option<Seq<AttrReport>>
    decreases end - start,
{
    if start >= end {
        Some(Seq::empty())
    } else if start < 0 || end > eps.len() {
        None
    } else {
        match (spec_endpoint_read(start as u16, eps[start].clusters@, cluster, attribute), spec_read_range(
            eps,
            start + 1,
            end,
            cluster,
            attribute,
        )) {
            (Some(h), Some(t)) => Some(h + t),
            _ => None,
        }
    }
}

/// The reports a read with this path emits, if every named component exists.
pub open spec fn spec_read(
    eps: Seq<Endpoint>,
    endpoint: Option<u16>,
    cluster: Option<u32>,
    attribute: Option<u16>,
) -> Option<Seq<AttrReport>> {
    match endpoint {
        None => spec_read_range(eps, 0, eps.len() as int, cluster, attribute),
        Some(e) => if e < eps.len() {
            spec_read_range(eps, e as int, e + 1, cluster, attribute)
        } else {
            None
        },
    }
}

impl Node {
    pub open spec fn wf(&self) -> bool {
        &&& self.endpoints@.len() <= ENDPTS_PER_ACC
        &&& forall|i: int| 0 <= i < self.endpoints@.len() ==> (#[trigger] self.endpoints@[i]).wf()
    }

    pub fn new() -> (r: Result<Node, Error>)
        ensures
            r matches Ok(n) && n.wf() && n.endpoints@.len() == 0,
    {
        Ok(Node { endpoints: Vec::new() })
    }

    /// Adds an endpoint and returns its position; `NoSpace` when full.
    pub fn add_endpoint(&mut self) -> (r: Result<u32, Error>)
        requires
            old(self).wf(),
        ensures
            final(self).wf(),
            match r {
                Ok(i) => {
                    &&& i == old(self).endpoints@.len()
                    &&& old(self).endpoints@.len() < ENDPTS_PER_ACC
                    &&& final(self).endpoints@.len() == old(self).endpoints@.len() + 1
                    &&& final(self).endpoints@[i as int].clusters@.len() == 0
                    &&& forall|j: int|
                        0 <= j < old(self).endpoints@.len() ==> final(self).endpoints@[j] == old(
                            self,
                        ).endpoints@[j]
                },
                Err(e) => {
                    &&& old(self).endpoints@.len() == ENDPTS_PER_ACC
                    &&& e == Error::NoSpace
                    &&& final(self).endpoints == old(self).endpoints
                },
            },
    {
        if self.endpoints.len() < ENDPTS_PER_ACC {
            let i = self.endpoints.len();
            let ep = match Endpoint::new() {
                Ok(e) => e,
                Err(e) => {
                    return Err(e);
                },
            };
            self.endpoints.push(ep);
            Ok(i as u32)
        } else {
            Err(Error::NoSpace)
        }
    }

    /// The endpoint at this position, for reading and mutating in place.
    pub fn get_endpoint(&mut self, endpoint_id: u32) -> (r: Result<&mut Endpoint, Error>)
        ensures
            match r {
                Ok(ep) => {
                    &&& endpoint_id < old(self).endpoints@.len()
                    &&& *ep == old(self).endpoints@[endpoint_id as int]
                    &&& final(self).endpoints@ == old(self).endpoints@.update(
                        endpoint_id as int,
                        *final(ep),
                    )
                },
                Err(e) => {
                    &&& endpoint_id >= old(self).endpoints@.len()
                    &&& e == Error::EndpointNotFound
                    &&& *final(self) == *old(self)
                },
            },
    {
        let n = self.endpoints.len();
        if (endpoint_id as usize) < n {
            Ok(&mut self.endpoints[endpoint_id as usize])
        } else {
            Err(Error::EndpointNotFound)
        }
    }

    /// Adds a cluster to the endpoint at this position. An id beyond the
    /// table's capacity is invalid; one inside the capacity but naming no
    /// endpoint has no endpoint; a full cluster table has no space.
    pub fn add_cluster(&mut self, endpoint_id: u32, cluster: Cluster) -> (r: Result<(), Error>)
        requires
            old(self).wf(),
            cluster.wf(),
        ensures
            final(self).wf(),
            match r {
                Ok(()) => {
                    &&& endpoint_id < old(self).endpoints@.len()
                    &&& old(self).endpoints@[endpoint_id as int].clusters@.len()
                        < CLUSTERS_PER_ENDPT
                    &&& final(self).endpoints@.len() == old(self).endpoints@.len()
                    &&& final(self).endpoints@[endpoint_id as int].clusters@ == old(
                        self,
                    ).endpoints@[endpoint_id as int].clusters@.push(cluster)
                    &&& forall|j: int|
                        0 <= j < old(self).endpoints@.len() && j != endpoint_id
                            ==> final(self).endpoints@[j] == old(self).endpoints@[j]
                },
                Err(e) => {
                    &&& (e == Error::Invalid || e == Error::NoEndpoint || e == Error::NoSpace)
                    &&& (e == Error::Invalid <==> endpoint_id >= ENDPTS_PER_ACC)
                    &&& (e == Error::NoEndpoint <==> (old(self).endpoints@.len() <= endpoint_id
                        < ENDPTS_PER_ACC))
                    &&& (e == Error::NoSpace <==> (endpoint_id < old(self).endpoints@.len() && old(
                        self,
                    ).endpoints@[endpoint_id as int].clusters@.len() == CLUSTERS_PER_ENDPT))
                    &&& final(self).endpoints@ == old(self).endpoints@
                },
            },
    {
        if endpoint_id >= ENDPTS_PER_ACC as u32 {
            return Err(Error::Invalid);
        }
        let n = self.endpoints.len();
        if (endpoint_id as usize) >= n {
            return Err(Error::NoEndpoint);
        }
        let ghost pre = *self;
        let ep = &mut self.endpoints[endpoint_id as usize];
        match ep.add_cluster(cluster) {
            Ok(()) => Ok(()),
            Err(e) => {
                proof {
                    assert(self.endpoints@ =~= pre.endpoints@);
                }
                Err(e)
            },
        }
    }

    /// The index range of the endpoints a read addresses.
    pub fn get_wildcard_endpoints(&self, endpoint: Option<u16>) -> (r: Result<
        (usize, usize),
        IMStatusCode,
    >)
        ensures
            match r {
                Ok((start, end)) => {
                    &&& start <= end <= self.endpoints@.len()
                    &&& match endpoint {
                        None => start == 0 && end == self.endpoints@.len(),
                        Some(e) => start == e && end == e + 1,
                    }
                },
                Err(e) => {
                    &&& endpoint matches Some(ep) && ep >= self.endpoints@.len()
                    &&& e == IMStatusCode::UnsupportedEndpoint
                },
            },
    {
        match endpoint {
            Some(e) => {
                if (e as usize) < self.endpoints.len() {
                    Ok((e as usize, e as usize + 1))
                } else {
                    Err(IMStatusCode::UnsupportedEndpoint)
                }
            },
            None => Ok((0, self.endpoints.len())),
        }
    }

    /// Expands a (possibly wildcarded) endpoint and cluster path to the
    /// concrete `(endpoint id, cluster id)` pairs it addresses, in order.
    pub fn for_cluster_path(&self, endpoint: Option<u16>, cluster: Option<u32>) -> (r: Result<
        Vec<(u16, u32)>,
        IMStatusCode,
    >)
        requires
            self.wf(),
        ensures
            match r {
                Ok(pairs) => {
                    &&& spec_path_pairs(self.endpoints@, endpoint, cluster) == Some(pairs@)
                },
                Err(e) => {
                    &&& spec_path_pairs(self.endpoints@, endpoint, cluster) is None
                    &&& (e == IMStatusCode::UnsupportedEndpoint || e
                        == IMStatusCode::UnsupportedCluster)
                },
            },
    {
        let (start, end) = match self.get_wildcard_endpoints(endpoint) {
            Ok(p) => p,
            Err(e) => {
                return Err(e);
            },
        };
        let mut pairs: Vec<(u16, u32)> = Vec::new();
        let mut e: usize = start;
        while e < end
            invariant
                start <= e <= end <= self.endpoints@.len(),
                self.wf(),
                match endpoint {
                    None => start == 0 && end == self.endpoints@.len(),
                    Some(ev) => ev < self.endpoints@.len() && start == ev && end == ev + 1,
                },
                spec_pairs_range(self.endpoints@, start as int, e as int, cluster) == Some(pairs@),
            decreases end - e,
        {
            let ep = &self.endpoints[e];
            let (cs, ce) = match ep.get_wildcard_clusters(cluster) {
                Ok(p) => p,
                Err(er) => {
                    proof {
                        lemma_pairs_range_fail(
                            self.endpoints@,
                            start as int,
                            end as int,
                            e as int,
                            cluster,
                        );
                        lemma_pairs_range_full(
                            self.endpoints@,
                            endpoint,
                            cluster,
                            start as int,
                            end as int,
                        );
                    }
                    return Err(er);
                },
            };
            let ghost pairs_before = pairs@;
            let mut c: usize = cs;
            while c < ce
                invariant
                    cs <= c <= ce <= self.endpoints@[e as int].clusters@.len(),
                    e < self.endpoints@.len(),
                    self.wf(),
                    pairs@ == pairs_before + Seq::new(
                        (c - cs) as nat,
                        |k: int|
                            (
                                e as u16,
                                self.endpoints@[e as int].clusters@[cs + k].id,
                            ),
                    ),
                decreases ce - c,
            {
                let cid = self.endpoints[e].clusters[c].id;
                pairs.push((e as u16, cid));
                proof {
                    assert(pairs@ =~= pairs_before + Seq::new(
                        (c + 1 - cs) as nat,
                        |k: int| (e as u16, self.endpoints@[e as int].clusters@[cs + k].id),
                    ));
                }
                c = c + 1;
            }
            proof {
                lemma_pairs_range_step(
                    self.endpoints@,
                    start as int,
                    e as int,
                    cs as int,
                    ce as int,
                    cluster,
                    pairs_before,
                    pairs@,
                );
            }
            e = e + 1;
        }
        proof {
            lemma_pairs_range_full(self.endpoints@, endpoint, cluster, start as int, end as int);
        }
        Ok(pairs)
    }
}

/// A failing cluster inside the range fails the whole range.
proof fn lemma_clusters_read_fail(
    eid: u16,
    cs: Seq<Cluster>,
    start: int,
    end: int,
    bad: int,
    attribute: Option<u16>,
)
    requires
        0 <= start <= bad < end <= cs.len(),
        spec_cluster_read(eid, cs[bad], attribute) is None,
    ensures
        spec_clusters_read_range(eid, cs, start, end, attribute) is None,
    decreases bad - start,
{
    if start < bad {
        lemma_clusters_read_fail(eid, cs, start + 1, end, bad, attribute);
    }
}

/// Extending a prefix of cluster reports by one successful cluster.
proof fn lemma_clusters_read_step(
    eid: u16,
    cs: Seq<Cluster>,
    start: int,
    c: int,
    attribute: Option<u16>,
    before: Seq<AttrReport>,
    seg: Seq<AttrReport>,
)
    requires
        0 <= start <= c < cs.len(),
        spec_clusters_read_range(eid, cs, start, c, attribute) == Some(before),
        spec_cluster_read(eid, cs[c], attribute) == Some(seg),
    ensures
        spec_clusters_read_range(eid, cs, start, c + 1, attribute) == Some(before + seg),
    decreases c - start,
{
    if start == c {
        assert(before =~= Seq::<AttrReport>::empty());
        assert(spec_clusters_read_range(eid, cs, c + 1, c + 1, attribute) == Some(
            Seq::<AttrReport>::empty(),
        ));
        assert(before + seg =~= seg + Seq::<AttrReport>::empty());
    } else {
        let h = spec_cluster_read(eid, cs[start], attribute)->Some_0;
        let t = spec_clusters_read_range(eid, cs, start + 1, c, attribute)->Some_0;
        lemma_clusters_read_step(eid, cs, start + 1, c, attribute, t, seg);
        assert(before == h + t);
        assert(before + seg =~= h + (t + seg));
    }
}

/// A failing endpoint inside the range fails the whole read range.
proof fn lemma_read_range_fail(
    eps: Seq<Endpoint>,
    start: int,
    end: int,
    bad: int,
    cluster: Option<u32>,
    attribute: Option<u16>,
)
    requires
        0 <= start <= bad < end <= eps.len(),
        spec_endpoint_read(bad as u16, eps[bad].clusters@, cluster, attribute) is None,
    ensures
        spec_read_range(eps, start, end, cluster, attribute) is None,
    decreases bad - start,
{
    if start < bad {
        lemma_read_range_fail(eps, start + 1, end, bad, cluster, attribute);
    }
}

/// Extending a prefix of endpoint reports by one successful endpoint.
proof fn lemma_read_range_step(
    eps: Seq<Endpoint>,
    start: int,
    e: int,
    cluster: Option<u32>,
    attribute: Option<u16>,
    before: Seq<AttrReport>,
    seg: Seq<AttrReport>,
)
    requires
        0 <= start <= e < eps.len(),
        spec_read_range(eps, start, e, cluster, attribute) == Some(before),
        spec_endpoint_read(e as u16, eps[e].clusters@, cluster, attribute) == Some(seg),
    ensures
        spec_read_range(eps, start, e + 1, cluster, attribute) == Some(before + seg),
    decreases e - start,
{
    if start == e {
        assert(before =~= Seq::<AttrReport>::empty());
        assert(spec_read_range(eps, e + 1, e + 1, cluster, attribute) == Some(
            Seq::<AttrReport>::empty(),
        ));
        assert(before + seg =~= seg + Seq::<AttrReport>::empty());
    } else {
        let h = spec_endpoint_read(start as u16, eps[start].clusters@, cluster, attribute)->Some_0;
        let t = spec_read_range(eps, start + 1, e, cluster, attribute)->Some_0;
        lemma_read_range_step(eps, start + 1, e, cluster, attribute, t, seg);
        assert(before == h + t);
        assert(before + seg =~= h + (t + seg));
    }
}

/// Reads one endpoint's part of a read: appends one report per matched
/// attribute of this endpoint; on failure leaves `reports` unchanged.
fn read_endpoint_attrs(
    ep: &Endpoint,
    eid: u16,
    cluster: Option<u32>,
    attribute: Option<u16>,
    reports: &mut Vec<AttrReport>,
) -> (r: Result<(), IMStatusCode>)
    requires
        ep.wf(),
    ensures
        match r {
            Ok(()) => {
                &&& spec_endpoint_read(eid, ep.clusters@, cluster, attribute) matches Some(rs)
                &&& final(reports)@ == old(reports)@ + rs
            },
            Err(e) => {
                &&& spec_endpoint_read(eid, ep.clusters@, cluster, attribute) is None
                &&& final(reports)@ == old(reports)@
                &&& (e == IMStatusCode::UnsupportedCluster || e
                    == IMStatusCode::UnsupportedAttribute)
            },
        },
{
    let base_len = reports.len();
    let ghost base = reports@;
    match cluster {
        Some(cid) => {
            match ep.get_cluster_index(cid) {
                Some(ci) => {
                    proof {
                        lemma_cluster_index(ep.clusters@, cid);
                    }
                    let cl = &ep.clusters[ci];
                    match cl.handle_attrs_read(eid, attribute, reports) {
                        Ok(()) => {
                            proof {
                                let seg = reports@.skip(base.len() as int);
                                assert(reports@ =~= base + seg);
                                lemma_cluster_read_seg(eid, ep.clusters@[ci as int], attribute, base, reports@);
                            }
                            Ok(())
                        },
                        Err(er) => Err(er),
                    }
                },
                None => Err(IMStatusCode::UnsupportedCluster),
            }
        },
        None => {
            let cn = ep.clusters.len();
            let mut c: usize = 0;
            while c < cn
                invariant
                    c <= cn,
                    ep.wf(),
                    cluster is None,
                    cn == ep.clusters@.len(),
                    base == old(reports)@,
                    base.len() == base_len,
                    reports@.len() >= base.len(),
                    reports@.take(base.len() as int) == base,
                    spec_clusters_read_range(eid, ep.clusters@, 0, c as int, attribute) == Some(
                        reports@.skip(base.len() as int),
                    ),
                decreases cn - c,
            {
                let ghost before_c = reports@;
                let cl = &ep.clusters[c];
                match cl.handle_attrs_read(eid, attribute, reports) {
                    Ok(()) => {
                        proof {
                            lemma_cluster_read_seg(eid, ep.clusters@[c as int], attribute, before_c, reports@);
                            let seg = reports@.skip(before_c.len() as int);
                            lemma_clusters_read_step(
                                eid,
                                ep.clusters@,
                                0,
                                c as int,
                                attribute,
                                before_c.skip(base.len() as int),
                                seg,
                            );
                            assert(reports@.skip(base.len() as int) =~= before_c.skip(
                                base.len() as int,
                            ) + seg);
                            assert(reports@.take(base.len() as int) =~= base);
                        }
                    },
                    Err(er) => {
                        proof {
                            lemma_clusters_read_fail(
                                eid,
                                ep.clusters@,
                                0,
                                ep.clusters@.len() as int,
                                c as int,
                                attribute,
                            );
                        }
                        reports.truncate(base_len);
                        proof {
                            assert(reports@ =~= base);
                        }
                        return Err(er);
                    },
                }
                c = c + 1;
            }
            Ok(())
        },
    }
}

/// What one cluster's read appended is that cluster's reports.
proof fn lemma_cluster_read_seg(
    eid: u16,
    c: Cluster,
    attribute: Option<u16>,
    before: Seq<AttrReport>,
    after: Seq<AttrReport>,
)
    requires
        match attribute {
            None => after == before + Seq::new(
                c.attributes@.len(),
                |k: int| spec_report(eid, c.id, c.attributes@[k]),
            ),
            Some(a) => {
                &&& spec_attr_index(c.attributes@, a) matches Some(i)
                &&& after == before.push(spec_report(eid, c.id, c.attributes@[i]))
            },
        },
    ensures
        spec_cluster_read(eid, c, attribute) == Some(after.skip(before.len() as int)),
        after.take(before.len() as int) == before,
        after.len() >= before.len(),
{
    let seg = after.skip(before.len() as int);
    match attribute {
        None => {
            assert(seg =~= Seq::new(
                c.attributes@.len(),
                |k: int| spec_report(eid, c.id, c.attributes@[k]),
            ));
        },
        Some(a) => {
            let i = spec_attr_index(c.attributes@, a)->Some_0;
            assert(seg =~= seq![spec_report(eid, c.id, c.attributes@[i])]);
        },
    }
    assert(after.take(before.len() as int) =~= before);
}

impl Node {
    /// Reads the attributes a (possibly wildcarded) path addresses and
    /// appends one report per match, endpoint-major, in table order; on
    /// failure nothing is appended.
    pub fn read_attrs(
        &self,
        endpoint: Option<u16>,
        cluster: Option<u32>,
        attribute: Option<u16>,
        reports: &mut Vec<AttrReport>,
    ) -> (r: Result<(), IMStatusCode>)
        requires
            self.wf(),
        ensures
            match r {
                Ok(()) => {
                    &&& spec_read(self.endpoints@, endpoint, cluster, attribute) matches Some(rs)
                    &&& final(reports)@ == old(reports)@ + rs
                },
                Err(e) => {
                    &&& spec_read(self.endpoints@, endpoint, cluster, attribute) is None
                    &&& final(reports)@ == old(reports)@
                    &&& (e == IMStatusCode::UnsupportedEndpoint || e
                        == IMStatusCode::UnsupportedCluster || e
                        == IMStatusCode::UnsupportedAttribute)
                },
            },
    {
        let (start, end) = match self.get_wildcard_endpoints(endpoint) {
            Ok(p) => p,
            Err(er) => {
                return Err(er);
            },
        };
        let base_len = reports.len();
        let ghost base = reports@;
        let mut e: usize = start;
        while e < end
            invariant
                start <= e <= end <= self.endpoints@.len(),
                self.wf(),
                match endpoint {
                    None => start == 0 && end == self.endpoints@.len(),
                    Some(ev) => ev < self.endpoints@.len() && start == ev && end == ev + 1,
                },
                base == old(reports)@,
                base.len() == base_len,
                reports@.len() >= base.len(),
                reports@.take(base.len() as int) == base,
                spec_read_range(self.endpoints@, start as int, e as int, cluster, attribute)
                    == Some(reports@.skip(base.len() as int)),
            decreases end - e,
        {
            let ghost before_ep = reports@;
            let eid = e as u16;
            let ep = &self.endpoints[e];
            match read_endpoint_attrs(ep, eid, cluster, attribute, reports) {
                Ok(()) => {
                    proof {
                        let seg = reports@.skip(before_ep.len() as int);
                        assert(reports@ =~= before_ep + seg);
                        assert(seg =~= spec_endpoint_read(
                            eid,
                            self.endpoints@[e as int].clusters@,
                            cluster,
                            attribute,
                        )->Some_0);
                        assert((e as int) as u16 == eid);
                        lemma_read_range_step(
                            self.endpoints@,
                            start as int,
                            e as int,
                            cluster,
                            attribute,
                            before_ep.skip(base.len() as int),
                            seg,
                        );
                        assert(reports@.skip(base.len() as int) =~= before_ep.skip(
                            base.len() as int,
                        ) + seg);
                        assert(reports@.take(base.len() as int) =~= base);
                    }
                },
                Err(er) => {
                    proof {
                        lemma_read_range_fail(
                            self.endpoints@,
                            start as int,
                            end as int,
                            e as int,
                            cluster,
                            attribute,
                        );
                    }
                    reports.truncate(base_len);
                    proof {
                        assert(reports@ =~= base);
                    }
                    return Err(er);
                },
            }
            e = e + 1;
        }
        proof {
            assert(reports@ =~= base + reports@.skip(base.len() as int));
        }
        Ok(())
    }
}

/// A read of everything misses nothing: with every path component wildcarded
/// the read succeeds on any tree and emits as many reports as the tree has
/// attributes, and every `(endpoint, cluster, attribute)` triple's report
/// stands at its own position, endpoint-major, in table order — exactly one
/// report per triple.
pub proof fn lemma_wildcard_read_completeness(eps: Seq<Endpoint>)
    ensures
        spec_read(eps, None, None, None) matches Some(rs) && rs.len() == spec_total_attrs(
            eps,
            0,
            eps.len() as int,
        ),
        forall|e: int, c: int, a: int|
            0 <= e < eps.len() && 0 <= c < eps[e].clusters@.len() && 0 <= a
                < eps[e].clusters@[c].attributes@.len() ==> {
                let rs = spec_read(eps, None, None, None)->Some_0;
                let pos = #[trigger] spec_triple_pos(eps, e, c, a);
                &&& 0 <= pos < rs.len()
                &&& rs[pos] == spec_report(
                    e as u16,
                    eps[e].clusters@[c].id,
                    eps[e].clusters@[c].attributes@[a],
                )
            },
{
    lemma_wildcard_range_total(eps, 0, eps.len() as int);
    assert forall|e: int, c: int, a: int|
        0 <= e < eps.len() && 0 <= c < eps[e].clusters@.len() && 0 <= a
            < eps[e].clusters@[c].attributes@.len() implies {
        let rs = spec_read(eps, None, None, None)->Some_0;
        let pos = #[trigger] spec_triple_pos(eps, e, c, a);
        &&& 0 <= pos < rs.len()
        &&& rs[pos] == spec_report(
            e as u16,
            eps[e].clusters@[c].id,
            eps[e].clusters@[c].attributes@[a],
        )
    } by {
        lemma_read_range_index(eps, 0, eps.len() as int, e, c, a);
    }
}

/// Where a triple's report stands in a fully wildcarded read: after every
/// attribute of the endpoints before it and of its endpoint's earlier
/// clusters, at its own table position.
pub open spec fn spec_triple_pos(eps: Seq<Endpoint>, e: int, c: int, a: int) -> int {
    spec_total_attrs(eps, 0, e) + spec_cluster_attrs(eps[e].clusters@, 0, c) + a
}

/// In a wildcarded cluster-range read, attribute `a` of cluster `c` is
/// reported at the position counting the attributes of the clusters before.
proof fn lemma_clusters_read_index(
    eid: u16,
    cs: Seq<Cluster>,
    start: int,
    end: int,
    c: int,
    a: int,
)
    requires
        0 <= start <= c < end <= cs.len(),
        0 <= a < cs[c].attributes@.len(),
    ensures
        spec_clusters_read_range(eid, cs, start, end, None) matches Some(rs) && {
            let pos = spec_cluster_attrs(cs, start, c) + a;
            &&& 0 <= pos < rs.len()
            &&& rs[pos] == spec_report(eid, cs[c].id, cs[c].attributes@[a])
        },
    decreases c - start,
{
    lemma_wildcard_clusters_total(eid, cs, start, end);
    lemma_wildcard_clusters_total(eid, cs, start + 1, end);
    let head = spec_cluster_read(eid, cs[start], None)->Some_0;
    let tail = spec_clusters_read_range(eid, cs, start + 1, end, None)->Some_0;
    if start == c {
        assert(head[a] == spec_report(eid, cs[c].id, cs[c].attributes@[a]));
        assert((head + tail)[a] == head[a]);
    } else {
        lemma_clusters_read_index(eid, cs, start + 1, end, c, a);
        let pos2 = spec_cluster_attrs(cs, start + 1, c) + a;
        assert((head + tail)[head.len() + pos2] == tail[pos2]);
    }
}

/// In a wildcarded endpoint-range read, the triple's report is at the
/// position counting the attributes of the endpoints before it.
proof fn lemma_read_range_index(eps: Seq<Endpoint>, start: int, end: int, e: int, c: int, a: int)
    requires
        0 <= start <= e < end <= eps.len(),
        0 <= c < eps[e].clusters@.len(),
        0 <= a < eps[e].clusters@[c].attributes@.len(),
    ensures
        spec_read_range(eps, start, end, None, None) matches Some(rs) && {
            let pos = spec_total_attrs(eps, start, e) + spec_cluster_attrs(eps[e].clusters@, 0, c)
                + a;
            &&& 0 <= pos < rs.len()
            &&& rs[pos] == spec_report(
                e as u16,
                eps[e].clusters@[c].id,
                eps[e].clusters@[c].attributes@[a],
            )
        },
    decreases e - start,
{
    lemma_wildcard_range_total(eps, start, end);
    lemma_wildcard_range_total(eps, start + 1, end);
    lemma_wildcard_clusters_total(
        start as u16,
        eps[start].clusters@,
        0,
        eps[start].clusters@.len() as int,
    );
    let head = spec_endpoint_read(start as u16, eps[start].clusters@, None, None)->Some_0;
    let tail = spec_read_range(eps, start + 1, end, None, None)->Some_0;
    if start == e {
        lemma_clusters_read_index(
            e as u16,
            eps[e].clusters@,
            0,
            eps[e].clusters@.len() as int,
            c,
            a,
        );
        let pos = spec_cluster_attrs(eps[e].clusters@, 0, c) + a;
        assert((head + tail)[pos] == head[pos]);
    } else {
        lemma_read_range_index(eps, start + 1, end, e, c, a);
        let pos2 = spec_total_attrs(eps, start + 1, e) + spec_cluster_attrs(
            eps[e].clusters@,
            0,
            c,
        ) + a;
        assert((head + tail)[head.len() + pos2] == tail[pos2]);
    }
}

/// The number of attributes of the endpoints in `[start, end)`.
pub open spec fn spec_total_attrs(eps: Seq<Endpoint>, start: int, end: int) -> int
    decreases end - start,
{
    if start >= end || start < 0 || end > eps.len() {
        0
    } else {
        spec_cluster_attrs(eps[start].clusters@, 0, eps[start].clusters@.len() as int)
            + spec_total_attrs(eps, start + 1, end)
    }
}

/// The number of attributes of the clusters in `[start, end)`.
pub open spec fn spec_cluster_attrs(cs: Seq<Cluster>, start: int, end: int) -> int
    decreases end - start,
{
    if start >= end || start < 0 || end > cs.len() {
        0
    } else {
        cs[start].attributes@.len() + spec_cluster_attrs(cs, start + 1, end)
    }
}

/// A fully wildcarded range read always succeeds, with one report per
/// attribute.
proof fn lemma_wildcard_range_total(eps: Seq<Endpoint>, start: int, end: int)
    requires
        0 <= start <= end <= eps.len(),
    ensures
        spec_read_range(eps, start, end, None, None) matches Some(rs) && rs.len()
            == spec_total_attrs(eps, start, end),
    decreases end - start,
{
    if start < end {
        lemma_wildcard_clusters_total(
            start as u16,
            eps[start].clusters@,
            0,
            eps[start].clusters@.len() as int,
        );
        lemma_wildcard_range_total(eps, start + 1, end);
    }
}

/// A fully wildcarded cluster-range read always succeeds, with one report
/// per attribute.
proof fn lemma_wildcard_clusters_total(eid: u16, cs: Seq<Cluster>, start: int, end: int)
    requires
        0 <= start <= end <= cs.len(),
    ensures
        spec_clusters_read_range(eid, cs, start, end, None) matches Some(rs) && rs.len()
            == spec_cluster_attrs(cs, start, end),
    decreases end - start,
{
    if start < end {
        lemma_wildcard_clusters_total(eid, cs, start + 1, end);
    }
}

/// The pairs of one endpoint for a cluster selector.
pub open spec fn spec_endpoint_pairs(eid: u16, cs: Seq<Cluster>, cluster: Option<u32>) -> Option<
    Seq<(u16, u32)>,
> {
    match cluster {
        None => Some(Seq::new(cs.len(), |k: int| (eid, cs[k].id))),
        Some(cid) => match spec_cluster_index(cs, cid) {
            Some(i) => Some(seq![(eid, cid)]),
            None => None,
        },
    }
}

/// The pairs of the endpoints in `[start, end)`, in order.
pub open spec fn spec_pairs_range(
    eps: Seq<Endpoint>,
    start: int,
    end: int,
    cluster: Option<u32>,
) -> Option<Seq<(u16, u32)>>
    decreases end - start,
{
    if start >= end {
        Some(Seq::empty())
    } else if start < 0 || end > eps.len() {
        None
    } else {
        match (spec_endpoint_pairs(start as u16, eps[start].clusters@, cluster), spec_pairs_range(
            eps,
            start + 1,
            end,
            cluster,
        )) {
            (Some(h), Some(t)) => Some(h + t),
            _ => None,
        }
    }
}

/// The pairs a path addresses, if every named component exists.
pub open spec fn spec_path_pairs(
    eps: Seq<Endpoint>,
    endpoint: Option<u16>,
    cluster: Option<u32>,
) -> Option<Seq<(u16, u32)>> {
    match endpoint {
        None => spec_pairs_range(eps, 0, eps.len() as int, cluster),
        Some(e) => if e < eps.len() {
            spec_pairs_range(eps, e as int, e + 1, cluster)
        } else {
            None
        },
    }
}

/// A failing endpoint inside the range fails the whole range.
proof fn lemma_pairs_range_fail(
    eps: Seq<Endpoint>,
    start: int,
    end: int,
    bad: int,
    cluster: Option<u32>,
)
    requires
        0 <= start <= bad < end <= eps.len(),
        spec_endpoint_pairs(bad as u16, eps[bad].clusters@, cluster) is None,
    ensures
        spec_pairs_range(eps, start, end, cluster) is None,
    decreases bad - start,
{
    if start < bad {
        lemma_pairs_range_fail(eps, start + 1, end, bad, cluster);
    }
}

/// Extending a prefix of pairs by one successful endpoint.
proof fn lemma_pairs_range_step(
    eps: Seq<Endpoint>,
    start: int,
    e: int,
    cs: int,
    ce: int,
    cluster: Option<u32>,
    before: Seq<(u16, u32)>,
    after: Seq<(u16, u32)>,
)
    requires
        0 <= start <= e < eps.len(),
        spec_pairs_range(eps, start, e, cluster) == Some(before),
        match cluster {
            None => cs == 0 && ce == eps[e].clusters@.len(),
            Some(cid) => spec_cluster_index(eps[e].clusters@, cid) == Some(cs) && ce == cs + 1,
        },
        after == before + Seq::new((ce - cs) as nat, |k: int| (e as u16, eps[e].clusters@[cs + k].id)),
    ensures
        spec_pairs_range(eps, start, e + 1, cluster) == Some(after),
    decreases e - start,
{
    let seg = Seq::new((ce - cs) as nat, |k: int| (e as u16, eps[e].clusters@[cs + k].id));
    assert(spec_endpoint_pairs(e as u16, eps[e].clusters@, cluster) == Some(seg)) by {
        match cluster {
            None => {
                assert(seg =~= Seq::new(
                    eps[e].clusters@.len(),
                    |k: int| (e as u16, eps[e].clusters@[k].id),
                ));
            },
            Some(cid) => {
                lemma_cluster_index(eps[e].clusters@, cid);
                assert(seg =~= seq![(e as u16, cid)]);
            },
        }
    }
    if start == e {
        assert(spec_pairs_range(eps, e + 1, e + 1, cluster) == Some(Seq::<(u16, u32)>::empty()));
        assert(before =~= Seq::<(u16, u32)>::empty());
        assert(after =~= seg + Seq::<(u16, u32)>::empty());
    } else {
        let h = spec_endpoint_pairs(start as u16, eps[start].clusters@, cluster);
        assert(spec_pairs_range(eps, start + 1, e, cluster) is Some);
        let t = spec_pairs_range(eps, start + 1, e, cluster)->Some_0;
        lemma_pairs_range_step(eps, start + 1, e, cs, ce, cluster, t, t + seg);
        assert(before == h->Some_0 + t);
        assert(after =~= h->Some_0 + (t + seg));
    }
}

/// A path range over the whole selection gives the path's pairs.
proof fn lemma_pairs_range_full(
    eps: Seq<Endpoint>,
    endpoint: Option<u16>,
    cluster: Option<u32>,
    start: int,
    end: int,
)
    requires
        match endpoint {
            None => start == 0 && end == eps.len(),
            Some(e) => e < eps.len() && start == e && end == e + 1,
        },
    ensures
        spec_path_pairs(eps, endpoint, cluster) == spec_pairs_range(eps, start, end, cluster),
{
}

} // verus!
