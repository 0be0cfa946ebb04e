//! A virtual host: an isolated namespace owning one exchange tree whose root
//! is named `mq-root`. Incoming envelopes are dispatched here: the routing
//! key resolves target nodes, and the command or message executes against
//! the first resolved node, exactly as `process_model` states.

use vstd::prelude::*;

verus! {

use vstd::utf8::{decode_utf8, valid_utf8};
use crate::protocol::raw::{
    Raw,
    RawCommand,
    RawCommandModel,
    RawData,
    RawDataModel,
    RawMessage,
    RawMessageModel,
    RawModel,
};
use crate::protocol::text::{bytes_to_string, trim_name, trim_name_bytes};
use crate::queue::manager::qm_find;
use crate::queue::qbase::{Queue, QueueModel};
use crate::queue::queue_object::{QueueObject, QueueObjectModel};
use crate::routing::exchange::{
    apply_at_model,
    node_at_model,
    walk_model,
    Exchange,
    NodeModel,
    NodeOp,
    NodeOpModel,
};
use crate::routing::key::{RoutingKey, RoutingKeyModel};

/// The mathematical value of a virtual host: its name and its routing tree.
#[verifier::ext_equal]
pub struct VHostModel {
    pub name: Seq<char>,
    pub root: NodeModel,
}

/// One operation applied at the first node a routing key resolves to; a key
/// that resolves to nothing, or to an empty fan-out, changes nothing and
/// returns nothing.
pub open spec fn vhost_apply(root: NodeModel, rk: RoutingKeyModel, op: NodeOpModel) -> (
    NodeModel,
    Option<QueueObjectModel>,
    bool,
) {
    match walk_model(root, rk.segments(), 0) {
        None => (root, None, false),
        Some(paths) => if paths.len() == 0 {
            (root, None, false)
        } else {
            apply_at_model(root, paths[0], 0, op)
        },
    }
}

/// The queue a lookup through the routing tree finds: the key must resolve
/// to at least one node and that node must hold a queue of the given name.
pub open spec fn found_queue(root: NodeModel, rk: RoutingKeyModel, name: Seq<char>) -> Option<
    QueueModel,
> {
    match walk_model(root, rk.segments(), 0) {
        None => None,
        Some(paths) => if paths.len() == 0 {
            None
        } else {
            match node_at_model(root, paths[0], 0) {
                None => None,
                Some(node) => match qm_find(node.queues, name) {
                    None => None,
                    Some(i) => Some(node.queues[i]),
                },
            }
        },
    }
}

/// The name carried in a command payload: NUL padding and surrounding
/// whitespace trimmed, then decoded as UTF-8; `None` abandons the command.
pub open spec fn payload_name(data: Seq<u8>) -> Option<Seq<char>> {
    let nb = trim_name(data);
    if valid_utf8(nb) {
        Some(decode_utf8(nb))
    } else {
        None
    }
}

/// What dispatching one envelope does to a virtual host: the new state, the
/// optional message handed back, and whether a fetch found its queue empty.
/// Commands create or remove queues and exchanges at the first resolved
/// node (bindings are accepted but not yet implemented); a push appends a
/// message tagged with this host's name; a fetch pops the head of the queue
/// named by routing segment 3. A command whose payload name is not valid
/// UTF-8 is abandoned silently.
pub open spec fn process_model(v: VHostModel, raw: RawDataModel) -> (
    VHostModel,
    Option<QueueObjectModel>,
    bool,
) {
    let rk = raw.routing_key;
    let qname = rk.segments()[3];
    match raw.raw {
        RawModel::Command(c) => match c {
            RawCommandModel::NewQueue(d) => match payload_name(d) {
                Some(n) => (
                    VHostModel { root: vhost_apply(v.root, rk, NodeOpModel::AddQueue(n)).0, ..v },
                    None,
                    false,
                ),
                None => (v, None, false),
            },
            RawCommandModel::NewExchange(d) => match payload_name(d) {
                Some(n) => (
                    VHostModel {
                        root: vhost_apply(v.root, rk, NodeOpModel::AddExchange(n)).0,
                        ..v
                    },
                    None,
                    false,
                ),
                None => (v, None, false),
            },
            RawCommandModel::DropQueue(d) => match payload_name(d) {
                Some(n) => (
                    VHostModel { root: vhost_apply(v.root, rk, NodeOpModel::DropQueue(n)).0, ..v },
                    None,
                    false,
                ),
                None => (v, None, false),
            },
            RawCommandModel::DropExchange(d) => match payload_name(d) {
                Some(n) => (
                    VHostModel {
                        root: vhost_apply(v.root, rk, NodeOpModel::DropExchange(n)).0,
                        ..v
                    },
                    None,
                    false,
                ),
                None => (v, None, false),
            },
            RawCommandModel::NewBinding(_) => (v, None, false),
            RawCommandModel::DropBinding(_) => (v, None, false),
            RawCommandModel::Nop => (v, None, false),
        },
        RawModel::Message(m) => match m {
            RawMessageModel::Push(d) => (
                VHostModel {
                    root: vhost_apply(
                        v.root,
                        rk,
                        NodeOpModel::Push(
                            qname,
                            QueueObjectModel { virtual_host: v.name, content: d },
                        ),
                    ).0,
                    ..v
                },
                None,
                false,
            ),
            RawMessageModel::Fetch(_) => {
                let r = vhost_apply(v.root, rk, NodeOpModel::Fetch(qname));
                (VHostModel { root: r.0, ..v }, r.1, r.2)
            },
            RawMessageModel::Nop => (v, None, false),
        },
        RawModel::Nop => (v, None, false),
    }
}

/// One resolved operation keeps the tree invariant.
proof fn lemma_vhost_apply_wf(root: NodeModel, rk: RoutingKeyModel, op: NodeOpModel)
    requires
        crate::routing::exchange::node_wf(root),
    ensures
        crate::routing::exchange::node_wf(vhost_apply(root, rk, op).0),
{
    match walk_model(root, rk.segments(), 0) {
        None => {
        },
        Some(paths) => {
            if paths.len() > 0 {
                crate::routing::exchange::lemma_apply_at_wf(root, paths[0], 0, op);
            }
        },
    }
}

/// Dispatching any envelope preserves the data-model invariant: child and
/// queue names stay unique at every node of the host's tree.
pub proof fn lemma_process_preserves_wf(v: VHostModel, raw: RawDataModel)
    requires
        crate::routing::exchange::node_wf(v.root),
    ensures
        crate::routing::exchange::node_wf(process_model(v, raw).0.root),
{
    let rk = raw.routing_key;
    let qname = rk.segments()[3];
    match raw.raw {
        RawModel::Command(c) => match c {
            RawCommandModel::NewQueue(d) => {
                if payload_name(d) is Some {
                    lemma_vhost_apply_wf(v.root, rk, NodeOpModel::AddQueue(payload_name(d).unwrap()));
                }
            },
            RawCommandModel::NewExchange(d) => {
                if payload_name(d) is Some {
                    lemma_vhost_apply_wf(
                        v.root,
                        rk,
                        NodeOpModel::AddExchange(payload_name(d).unwrap()),
                    );
                }
            },
            RawCommandModel::DropQueue(d) => {
                if payload_name(d) is Some {
                    lemma_vhost_apply_wf(
                        v.root,
                        rk,
                        NodeOpModel::DropQueue(payload_name(d).unwrap()),
                    );
                }
            },
            RawCommandModel::DropExchange(d) => {
                if payload_name(d) is Some {
                    lemma_vhost_apply_wf(
                        v.root,
                        rk,
                        NodeOpModel::DropExchange(payload_name(d).unwrap()),
                    );
                }
            },
            RawCommandModel::NewBinding(_) => {
            },
            RawCommandModel::DropBinding(_) => {
            },
            RawCommandModel::Nop => {
            },
        },
        RawModel::Message(m) => match m {
            RawMessageModel::Push(d) => {
                lemma_vhost_apply_wf(
                    v.root,
                    rk,
                    NodeOpModel::Push(qname, QueueObjectModel { virtual_host: v.name, content: d }),
                );
            },
            RawMessageModel::Fetch(_) => {
                lemma_vhost_apply_wf(v.root, rk, NodeOpModel::Fetch(qname));
            },
            RawMessageModel::Nop => {
            },
        },
        RawModel::Nop => {
        },
    }
}

/// Fetching from a queue with nothing pending hands back the sentinel with
/// the error indicator raised — never a previously consumed message — and
/// leaves the host untouched.
pub proof fn lemma_fetch_empty(v: VHostModel, raw: RawDataModel)
    requires
        raw.raw matches RawModel::Message(RawMessageModel::Fetch(_)),
        raw.routing_key.segments().len() == 4,
        walk_model(v.root, raw.routing_key.segments(), 0) is Some,
        walk_model(v.root, raw.routing_key.segments(), 0).unwrap().len() > 0,
        ({
            let n = node_at_model(
                v.root,
                walk_model(v.root, raw.routing_key.segments(), 0).unwrap()[0],
                0,
            ).unwrap();
            &&& qm_find(n.queues, raw.routing_key.segments()[3]) is Some
            &&& n.queues[qm_find(n.queues, raw.routing_key.segments()[3]).unwrap()].items.len()
                == 0
        }),
    ensures
        process_model(v, raw).0 == v,
        process_model(v, raw).1 == Some(crate::routing::exchange::empty_sentinel()),
        process_model(v, raw).2 == true,
{
    let segs = raw.routing_key.segments();
    let paths = walk_model(v.root, segs, 0).unwrap();
    crate::routing::exchange::lemma_walk_paths_resolve(v.root, segs, 0, 0);
    crate::routing::exchange::lemma_apply_at_node(
        v.root,
        paths[0],
        0,
        NodeOpModel::Fetch(segs[3]),
    );
    assert(process_model(v, raw).0 =~~= v);
}

/// A push followed by a fetch through the same routing key, on a path of
/// existing exchanges whose target queue starts out empty, hands the pushed
/// content back unchanged, tagged with the host's name and with no error
/// indicator: the single-producer, single-consumer round trip.
pub proof fn lemma_push_then_fetch(
    v: VHostModel,
    push_raw: RawDataModel,
    fetch_raw: RawDataModel,
    content: Seq<u8>,
)
    requires
        push_raw.raw == RawModel::Message(RawMessageModel::Push(content)),
        fetch_raw.raw matches RawModel::Message(RawMessageModel::Fetch(_)),
        fetch_raw.routing_key == push_raw.routing_key,
        push_raw.routing_key.segments().len() == 4,
        walk_model(v.root, push_raw.routing_key.segments(), 0) is Some,
        walk_model(v.root, push_raw.routing_key.segments(), 0).unwrap().len() > 0,
        ({
            let n = node_at_model(
                v.root,
                walk_model(v.root, push_raw.routing_key.segments(), 0).unwrap()[0],
                0,
            ).unwrap();
            &&& qm_find(n.queues, push_raw.routing_key.segments()[3]) is Some
            &&& n.queues[qm_find(
                n.queues,
                push_raw.routing_key.segments()[3],
            ).unwrap()].items.len() == 0
        }),
    ensures
        ({
            let v1 = process_model(v, push_raw).0;
            &&& process_model(v1, fetch_raw).1 == Some(
                QueueObjectModel { virtual_host: v.name, content },
            )
            &&& process_model(v1, fetch_raw).2 == false
        }),
{
    let segs = push_raw.routing_key.segments();
    let qname = segs[3];
    let paths = walk_model(v.root, segs, 0).unwrap();
    crate::routing::exchange::lemma_walk_paths_resolve(v.root, segs, 0, 0);
    let n = node_at_model(v.root, paths[0], 0).unwrap();
    let qi = qm_find(n.queues, qname).unwrap();
    let obj = QueueObjectModel { virtual_host: v.name, content };
    let pushop = NodeOpModel::Push(qname, obj);
    crate::routing::exchange::lemma_apply_at_node(v.root, paths[0], 0, pushop);
    crate::common::lookup::lemma_first_where_properties(
        n.queues,
        |q: QueueModel| q.name == qname,
    );
    let n1 = crate::routing::exchange::apply_op_model(n, pushop).0;
    let root1 = apply_at_model(v.root, paths[0], 0, pushop).0;
    let v1 = process_model(v, push_raw).0;
    assert(v1.root == root1);
    crate::routing::exchange::lemma_apply_at_same_shape(v.root, paths[0], 0, pushop);
    crate::routing::exchange::lemma_walk_same_shape(v.root, root1, segs, 0);
    assert(walk_model(root1, segs, 0) == Some(paths));
    assert(node_at_model(root1, paths[0], 0) == Some(n1));
    let fetchop = NodeOpModel::Fetch(qname);
    crate::routing::exchange::lemma_apply_at_node(root1, paths[0], 0, fetchop);
    crate::common::lookup::lemma_first_where_update(
        n.queues,
        |q: QueueModel| q.name == qname,
        qi,
        n1.queues[qi],
    );
    assert(qm_find(n1.queues, qname) == Some(qi));
    assert(n1.queues[qi].items == n.queues[qi].items.push(obj));
    assert(n1.queues[qi].items.first() == obj);
    assert(process_model(v1, fetch_raw).1 == Some(obj));
}

/// An isolated namespace: a name and one exchange tree.
pub struct VirtualHost {
    pub name: String,
    base_exchange: Exchange,
}

impl View for VirtualHost {
    type V = VHostModel;

    closed spec fn view(&self) -> VHostModel {
        VHostModel { name: self.name@, root: self.base_exchange@ }
    }
}

impl VirtualHost {
    /// The host's name.
    pub fn name(&self) -> (r: &String)
        ensures
            r@ == self@.name,
    {
        &self.name
    }

    /// A fresh host with an empty root exchange named `mq-root`.
    pub fn new(name: String) -> (r: VirtualHost)
        ensures
            r@.name == name@,
            r@.root.name == "mq-root"@,
            r@.root.children == Seq::<NodeModel>::empty(),
            r@.root.queues == Seq::<crate::queue::qbase::QueueModel>::empty(),
    {
        VirtualHost { name, base_exchange: Exchange::new("mq-root".to_owned()) }
    }

    fn apply_first(&mut self, routing_key: &RoutingKey, op: NodeOp) -> (r: (
        Option<QueueObject>,
        bool,
    ))
        requires
            routing_key.wf(),
        ensures
            ({
                let (root2, res, flag) = vhost_apply(old(self)@.root, routing_key@, op@);
                &&& final(self)@.root == root2
                &&& final(self)@.name == old(self)@.name
                &&& match r.0 {
                    Some(obj) => res == Some(obj@),
                    None => res is None,
                }
                &&& r.1 == flag
            }),
    {
        match self.base_exchange.walk_readonly(routing_key, 0) {
            None => (None, false),
            Some(paths) => {
                if paths.len() == 0 {
                    (None, false)
                } else {
                    proof {
                        assert(paths.deep_view()[0] == paths[0].deep_view());
                    }
                    self.base_exchange.apply_at(&paths[0], 0, op)
                }
            },
        }
    }

    /// Create a child exchange named `name` under the first node the key
    /// resolves to.
    pub fn add_exchange(&mut self, name: String, routing_key: RoutingKey)
        requires
            routing_key.wf(),
        ensures
            final(self)@.name == old(self)@.name,
            final(self)@.root == vhost_apply(
                old(self)@.root,
                routing_key@,
                NodeOpModel::AddExchange(name@),
            ).0,
    {
        self.apply_first(&routing_key, NodeOp::AddExchange(name));
    }

    /// Create a queue named `name` at the first node the key resolves to.
    pub fn add_queue(&mut self, name: String, routing_key: RoutingKey)
        requires
            routing_key.wf(),
        ensures
            final(self)@.name == old(self)@.name,
            final(self)@.root == vhost_apply(
                old(self)@.root,
                routing_key@,
                NodeOpModel::AddQueue(name@),
            ).0,
    {
        self.apply_first(&routing_key, NodeOp::AddQueue(name));
    }

    /// The queue named `name` at the first node the key resolves to.
    pub fn get_queue(&self, name: &String, routing_key: RoutingKey) -> (r: Option<&Queue>)
        requires
            routing_key.wf(),
        ensures
            match r {
                Some(q) => found_queue(self@.root, routing_key@, name@) == Some(q@),
                None => found_queue(self@.root, routing_key@, name@) is None,
            },
    {
        match self.base_exchange.walk_readonly(&routing_key, 0) {
            None => None,
            Some(paths) => {
                if paths.len() == 0 {
                    None
                } else {
                    proof {
                        assert(paths.deep_view()[0] == paths[0].deep_view());
                    }
                    match self.base_exchange.at_path(&paths[0], 0) {
                        None => None,
                        Some(node) => node.get_queue(name),
                    }
                }
            },
        }
    }

    /// Remove the child exchange named `name`, with its whole subtree, under
    /// the first node the key resolves to.
    pub fn drop_exchange(&mut self, name: String, routing_key: RoutingKey)
        requires
            routing_key.wf(),
        ensures
            final(self)@.name == old(self)@.name,
            final(self)@.root == vhost_apply(
                old(self)@.root,
                routing_key@,
                NodeOpModel::DropExchange(name@),
            ).0,
    {
        self.apply_first(&routing_key, NodeOp::DropExchange(name));
    }

    /// Dispatch one decoded envelope against this host, exactly as
    /// `process_model` states; on a fetch that found its queue empty,
    /// `err_handle` is set to `0xf` beside the sentinel result.
    pub fn process_incoming(&mut self, raw: RawData, err_handle: &mut u16) -> (r: Option<
        QueueObject,
    >)
        requires
            raw.routing_key.wf(),
        ensures
            ({
                let (v2, res, flag) = process_model(old(self)@, raw@);
                &&& final(self)@ == v2
                &&& match r {
                    Some(obj) => res == Some(obj@),
                    None => res is None,
                }
                &&& *final(err_handle) == if flag {
                    0xf
                } else {
                    *old(err_handle)
                }
            }),
    {
        let RawData { raw: payload, routing_key, .. } = raw;
        match payload {
            Raw::Command(cmd) => {
                match cmd {
                    RawCommand::NewQueue(data) => {
                        match bytes_to_string(trim_name_bytes(data.as_slice())) {
                            Some(n) => {
                                self.apply_first(&routing_key, NodeOp::AddQueue(n));
                            },
                            None => {
                            },
                        }
                    },
                    RawCommand::NewExchange(data) => {
                        match bytes_to_string(trim_name_bytes(data.as_slice())) {
                            Some(n) => {
                                self.apply_first(&routing_key, NodeOp::AddExchange(n));
                            },
                            None => {
                            },
                        }
                    },
                    RawCommand::DropQueue(data) => {
                        match bytes_to_string(trim_name_bytes(data.as_slice())) {
                            Some(n) => {
                                self.apply_first(&routing_key, NodeOp::DropQueue(n));
                            },
                            None => {
                            },
                        }
                    },
                    RawCommand::DropExchange(data) => {
                        match bytes_to_string(trim_name_bytes(data.as_slice())) {
                            Some(n) => {
                                self.apply_first(&routing_key, NodeOp::DropExchange(n));
                            },
                            None => {
                            },
                        }
                    },
                    RawCommand::NewBinding(_) => {
                    },
                    RawCommand::DropBinding(_) => {
                    },
                    RawCommand::Nop => {
                    },
                }
                None
            },
            Raw::Message(msg) => match msg {
                RawMessage::Push(data) => {
                    let obj = QueueObject::new(&self.name, data);
                    let qname = routing_key.queue_name().clone();
                    self.apply_first(&routing_key, NodeOp::Push(qname, obj));
                    None
                },
                RawMessage::Fetch(_) => {
                    let qname = routing_key.queue_name().clone();
                    let (res, empty) = self.apply_first(&routing_key, NodeOp::Fetch(qname));
                    if empty {
                        *err_handle = 0xf;
                    }
                    res
                },
                RawMessage::Nop => None,
            },
            Raw::Nop => None,
        }
    }

    /// Remove the queue named `name` at the first node the key resolves to.
    pub fn drop_queue(&mut self, name: String, routing_key: RoutingKey)
        requires
            routing_key.wf(),
        ensures
            final(self)@.name == old(self)@.name,
            final(self)@.root == vhost_apply(
                old(self)@.root,
                routing_key@,
                NodeOpModel::DropQueue(name@),
            ).0,
    {
        self.apply_first(&routing_key, NodeOp::DropQueue(name));
    }
}

} // verus!
