//! The exchange routing tree. Each node owns its child exchanges and a queue
//! registry; a child is reachable only through its parent, so removing a
//! child removes its whole subtree and nothing can dangle. Routing keys are
//! resolved by `walk`, which names the reached nodes by their paths from the
//! starting node; mutation reaches a resolved node through `apply_at`.

use vstd::prelude::*;

verus! {

use crate::common::lookup::{
    first_where,
    lemma_first_where_absent,
    lemma_first_where_alike,
    lemma_first_where_found,
    lemma_first_where_properties,
    lemma_first_where_update,
};
use crate::queue::manager::{qm_find, QueueManager};
use crate::queue::qbase::{Queue, QueueModel};
use crate::queue::queue_object::{QueueObject, QueueObjectModel};
use crate::routing::key::{
    classify_segment,
    is_stop_segment,
    is_wildcard_segment,
    RoutingKey,
    SegmentKind,
};

broadcast use {vstd::std_specs::vec::axiom_vec_decreases_to_view, vstd::seq::group_seq_axioms};

/// The mathematical value of an exchange node: its name, the child nodes in
/// creation order, and the queue registry.
#[verifier::ext_equal]
pub struct NodeModel {
    pub name: Seq<char>,
    pub children: Seq<NodeModel>,
    pub queues: Seq<QueueModel>,
}

/// The index of the child named `name`, if any.
pub open spec fn node_find(children: Seq<NodeModel>, name: Seq<char>) -> Option<int> {
    first_where(children, |c: NodeModel| c.name == name)
}

/// A command or message operation to execute at a resolved node.
pub enum NodeOp {
    AddQueue(String),
    AddExchange(String),
    DropQueue(String),
    DropExchange(String),
    Push(String, QueueObject),
    Fetch(String),
}

/// The mathematical value of a node operation.
pub enum NodeOpModel {
    AddQueue(Seq<char>),
    AddExchange(Seq<char>),
    DropQueue(Seq<char>),
    DropExchange(Seq<char>),
    Push(Seq<char>, QueueObjectModel),
    Fetch(Seq<char>),
}

impl View for NodeOp {
    type V = NodeOpModel;

    open spec fn view(&self) -> NodeOpModel {
        match self {
            NodeOp::AddQueue(n) => NodeOpModel::AddQueue(n@),
            NodeOp::AddExchange(n) => NodeOpModel::AddExchange(n@),
            NodeOp::DropQueue(n) => NodeOpModel::DropQueue(n@),
            NodeOp::DropExchange(n) => NodeOpModel::DropExchange(n@),
            NodeOp::Push(n, obj) => NodeOpModel::Push(n@, obj@),
            NodeOp::Fetch(n) => NodeOpModel::Fetch(n@),
        }
    }
}

/// The message handed back for a fetch from an empty queue: an empty
/// provenance tag and empty content, distinguished from a real message only
/// by the error indicator beside it.
pub open spec fn empty_sentinel() -> QueueObjectModel {
    QueueObjectModel { virtual_host: Seq::empty(), content: Seq::empty() }
}

/// A queue registry with `name` created if it was absent.
pub open spec fn qm_add(qs: Seq<QueueModel>, name: Seq<char>) -> Seq<QueueModel> {
    if qm_find(qs, name) is Some {
        qs
    } else {
        qs.push(QueueModel { name, items: Seq::empty() })
    }
}

/// A queue registry with `name` removed if it was present.
pub open spec fn qm_remove(qs: Seq<QueueModel>, name: Seq<char>) -> Seq<QueueModel> {
    match qm_find(qs, name) {
        Some(i) => qs.remove(i),
        None => qs,
    }
}

/// A child list with an empty node of `name` created if it was absent.
pub open spec fn child_add(children: Seq<NodeModel>, name: Seq<char>) -> Seq<NodeModel> {
    if node_find(children, name) is Some {
        children
    } else {
        children.push(NodeModel { name, children: Seq::empty(), queues: Seq::empty() })
    }
}

/// A child list with `name` removed if it was present.
pub open spec fn child_remove(children: Seq<NodeModel>, name: Seq<char>) -> Seq<NodeModel> {
    match node_find(children, name) {
        Some(i) => children.remove(i),
        None => children,
    }
}

/// What one operation does to one node: the new node, the optional message
/// handed back, and whether a fetch found its queue empty. Creation is
/// idempotent by name, removal of an absent name does nothing, a push to an
/// absent queue is dropped, and a fetch from an absent queue returns
/// nothing; a fetch from an empty queue returns the sentinel and raises the
/// error indicator instead of handing back a stale message.
pub open spec fn apply_op_model(m: NodeModel, op: NodeOpModel) -> (
    NodeModel,
    Option<QueueObjectModel>,
    bool,
) {
    match op {
        NodeOpModel::AddQueue(n) => (
            NodeModel { queues: qm_add(m.queues, n), ..m },
            None,
            false,
        ),
        NodeOpModel::AddExchange(n) => (
            NodeModel { children: child_add(m.children, n), ..m },
            None,
            false,
        ),
        NodeOpModel::DropQueue(n) => (
            NodeModel { queues: qm_remove(m.queues, n), ..m },
            None,
            false,
        ),
        NodeOpModel::DropExchange(n) => (
            NodeModel { children: child_remove(m.children, n), ..m },
            None,
            false,
        ),
        NodeOpModel::Push(n, obj) => match qm_find(m.queues, n) {
            None => (m, None, false),
            Some(i) => (
                NodeModel {
                    queues: m.queues.update(
                        i,
                        QueueModel { name: m.queues[i].name, items: m.queues[i].items.push(obj) },
                    ),
                    ..m
                },
                None,
                false,
            ),
        },
        NodeOpModel::Fetch(n) => match qm_find(m.queues, n) {
            None => (m, None, false),
            Some(i) => if m.queues[i].items.len() == 0 {
                (m, Some(empty_sentinel()), true)
            } else {
                (
                    NodeModel {
                        queues: m.queues.update(
                            i,
                            QueueModel {
                                name: m.queues[i].name,
                                items: m.queues[i].items.drop_first(),
                            },
                        ),
                        ..m
                    },
                    Some(m.queues[i].items.first()),
                    false,
                )
            },
        },
    }
}

/// One operation applied at the node reached by following `path` from `d`
/// on: the new tree, the optional message handed back, and the empty-fetch
/// indicator. A path through a missing child changes nothing and returns
/// nothing.
pub open spec fn apply_at_model(m: NodeModel, path: Seq<Seq<char>>, d: int, op: NodeOpModel) -> (
    NodeModel,
    Option<QueueObjectModel>,
    bool,
)
    decreases path.len() - d,
{
    if d >= path.len() {
        apply_op_model(m, op)
    } else {
        match node_find(m.children, path[d]) {
            None => (m, None, false),
            Some(i) => {
                let r = apply_at_model(m.children[i], path, d + 1, op);
                (NodeModel { children: m.children.update(i, r.0), ..m }, r.1, r.2)
            },
        }
    }
}

/// The node reached by following `path` from position `d`, if every hop
/// names an existing child.
pub open spec fn node_at_model(m: NodeModel, path: Seq<Seq<char>>, d: int) -> Option<NodeModel>
    decreases path.len() - d,
{
    if d >= path.len() {
        Some(m)
    } else {
        match node_find(m.children, path[d]) {
            None => None,
            Some(i) => node_at_model(m.children[i], path, d + 1),
        }
    }
}

/// What one operation at the end of an existing path does to the whole
/// tree: the result and indicator are those of the operation at the reached
/// node, the reached node becomes the operated-on node, and an operation
/// that leaves its node unchanged leaves the whole tree unchanged.
pub proof fn lemma_apply_at_node(m: NodeModel, path: Seq<Seq<char>>, d: int, op: NodeOpModel)
    requires
        0 <= d <= path.len(),
        node_at_model(m, path, d) is Some,
    ensures
        ({
            let n = node_at_model(m, path, d).unwrap();
            let (n2, res, flag) = apply_op_model(n, op);
            let (m2, mres, mflag) = apply_at_model(m, path, d, op);
            &&& mres == res
            &&& mflag == flag
            &&& node_at_model(m2, path, d) == Some(n2)
            &&& (n2 == n ==> m2 == m)
        }),
    decreases path.len() - d,
{
    if d < path.len() {
        match node_find(m.children, path[d]) {
            None => {
            },
            Some(i) => {
                lemma_first_where_properties(m.children, |c: NodeModel| c.name == path[d]);
                lemma_apply_at_node(m.children[i], path, d + 1, op);
                let c2 = apply_at_model(m.children[i], path, d + 1, op).0;
                let m2 = apply_at_model(m, path, d, op).0;
                assert(c2.name == m.children[i].name) by {
                    lemma_apply_at_keeps_name(m.children[i], path, d + 1, op);
                }
                lemma_first_where_update(
                    m.children,
                    |c: NodeModel| c.name == path[d],
                    i,
                    c2,
                );
                assert(node_find(m2.children, path[d]) == Some(i));
                if c2 == m.children[i] {
                    assert(m2.children =~= m.children);
                    assert(m2 =~~= m);
                }
            },
        }
    }
}

/// An operation never renames the node it reaches, nor any node above it.
pub proof fn lemma_apply_at_keeps_name(m: NodeModel, path: Seq<Seq<char>>, d: int, op: NodeOpModel)
    ensures
        apply_at_model(m, path, d, op).0.name == m.name,
    decreases path.len() - d,
{
}

/// Reading a path from position `d` is reading what is left of it from the
/// start.
pub proof fn lemma_node_at_skip(m: NodeModel, path: Seq<Seq<char>>, d: int)
    requires
        0 <= d <= path.len(),
    ensures
        node_at_model(m, path, d) == node_at_model(m, path.skip(d), 0),
    decreases path.len() - d,
{
    if d < path.len() {
        assert(path.skip(d)[0] == path[d]);
        match node_find(m.children, path[d]) {
            None => {
            },
            Some(i) => {
                lemma_first_where_properties(m.children, |c: NodeModel| c.name == path[d]);
                lemma_node_at_skip(m.children[i], path, d + 1);
                lemma_node_at_skip(m.children[i], path.skip(d), 1);
                assert(path.skip(d).skip(1) =~= path.skip(d + 1));
            },
        }
    } else {
        assert(path.skip(d) =~= Seq::<Seq<char>>::empty());
    }
}

/// Every path that resolution hands back leads to a node: the walk only
/// names children that exist.
pub proof fn lemma_walk_paths_resolve(m: NodeModel, segs: Seq<Seq<char>>, next: int, i: int)
    requires
        walk_model(m, segs, next) is Some,
        0 <= i < walk_model(m, segs, next).unwrap().len(),
    ensures
        node_at_model(m, walk_model(m, segs, next).unwrap()[i], 0) is Some,
    decreases 3 - next,
{
    let k = segs[next];
    let paths = walk_model(m, segs, next).unwrap();
    if is_stop_segment(k) || next == 2 {
        assert(node_at_model(m, paths[i], 0) == Some(m));
    } else if is_wildcard_segment(k) {
        let p = paths[i];
        lemma_first_where_properties(m.children, |c: NodeModel| c.name == m.children[i].name);
        let j = node_find(m.children, m.children[i].name).unwrap();
        assert(node_at_model(m.children[j], p, 1) == Some(m.children[j]));
    } else {
        let ci = node_find(m.children, k).unwrap();
        lemma_first_where_properties(m.children, |c: NodeModel| c.name == k);
        let tails = walk_model(m.children[ci], segs, next + 1).unwrap();
        lemma_walk_paths_resolve(m.children[ci], segs, next + 1, i);
        let tail = tails[i];
        let p = paths[i];
        assert(p == seq![k] + tail);
        assert(p[0] == k);
        lemma_node_at_skip(m.children[ci], p, 1);
        assert(p.skip(1) =~= tail);
        assert(node_at_model(m, p, 0) == node_at_model(m.children[ci], tail, 0));
    }
}

/// No two queues of one registry share a name.
pub open spec fn unique_queue_names(qs: Seq<QueueModel>) -> bool {
    forall|i: int, j: int| 0 <= i < j < qs.len() ==> #[trigger] qs[i].name != #[trigger] qs[j].name
}

/// The tree invariant from the data model: child names are unique at every
/// node, queue names are unique in every registry, recursively.
pub open spec fn node_wf(m: NodeModel) -> bool
    decreases m,
{
    &&& unique_queue_names(m.queues)
    &&& forall|i: int, j: int|
        0 <= i < j < m.children.len() ==> #[trigger] m.children[i].name
            != #[trigger] m.children[j].name
    &&& forall|i: int| 0 <= i < m.children.len() ==> node_wf(#[trigger] m.children[i])
}

proof fn lemma_qm_add_unique(qs: Seq<QueueModel>, name: Seq<char>)
    requires
        unique_queue_names(qs),
    ensures
        unique_queue_names(qm_add(qs, name)),
{
    if qm_find(qs, name) is None {
        lemma_first_where_properties(qs, |q: QueueModel| q.name == name);
    }
}

proof fn lemma_qm_remove_unique(qs: Seq<QueueModel>, name: Seq<char>)
    requires
        unique_queue_names(qs),
    ensures
        unique_queue_names(qm_remove(qs, name)),
{
    match qm_find(qs, name) {
        None => {
        },
        Some(k) => {
            lemma_first_where_properties(qs, |q: QueueModel| q.name == name);
            let qs2 = qs.remove(k);
            assert forall|i: int, j: int|
                0 <= i < j < qs2.len() implies #[trigger] qs2[i].name
                != #[trigger] qs2[j].name by {
                let oi = if i < k {
                    i
                } else {
                    i + 1
                };
                let oj = if j < k {
                    j
                } else {
                    j + 1
                };
                assert(qs2[i] == qs[oi]);
                assert(qs2[j] == qs[oj]);
            }
        },
    }
}

/// One operation at one node keeps the invariant: creations check for the
/// name first, removals and queue traffic never duplicate one.
pub proof fn lemma_apply_op_wf(m: NodeModel, op: NodeOpModel)
    requires
        node_wf(m),
    ensures
        node_wf(apply_op_model(m, op).0),
{
    let m2 = apply_op_model(m, op).0;
    match op {
        NodeOpModel::AddQueue(n) => {
            lemma_qm_add_unique(m.queues, n);
            assert(node_wf(m2));
        },
        NodeOpModel::DropQueue(n) => {
            lemma_qm_remove_unique(m.queues, n);
            assert(node_wf(m2));
        },
        NodeOpModel::AddExchange(n) => {
            if node_find(m.children, n) is None {
                lemma_first_where_properties(m.children, |c: NodeModel| c.name == n);
                let fresh = NodeModel { name: n, children: Seq::empty(), queues: Seq::empty() };
                assert(node_wf(fresh));
                assert forall|i: int, j: int|
                    0 <= i < j < m2.children.len() implies #[trigger] m2.children[i].name
                    != #[trigger] m2.children[j].name by {
                    if j == m.children.len() {
                        assert(m2.children[i] == m.children[i]);
                    }
                }
                assert forall|i: int| 0 <= i < m2.children.len() implies node_wf(
                    #[trigger] m2.children[i],
                ) by {
                    if i < m.children.len() {
                        assert(m2.children[i] == m.children[i]);
                    } else {
                        assert(m2.children[i] == fresh);
                    }
                }
            }
            assert(node_wf(m2));
        },
        NodeOpModel::DropExchange(n) => {
            match node_find(m.children, n) {
                None => {
                },
                Some(k) => {
                    lemma_first_where_properties(m.children, |c: NodeModel| c.name == n);
                    let cs2 = m.children.remove(k);
                    assert forall|i: int, j: int|
                        0 <= i < j < cs2.len() implies #[trigger] cs2[i].name
                        != #[trigger] cs2[j].name by {
                        let oi = if i < k {
                            i
                        } else {
                            i + 1
                        };
                        let oj = if j < k {
                            j
                        } else {
                            j + 1
                        };
                        assert(cs2[i] == m.children[oi]);
                        assert(cs2[j] == m.children[oj]);
                    }
                    assert forall|i: int| 0 <= i < cs2.len() implies node_wf(
                        #[trigger] cs2[i],
                    ) by {
                        let oi = if i < k {
                            i
                        } else {
                            i + 1
                        };
                        assert(cs2[i] == m.children[oi]);
                    }
                },
            }
        },
        NodeOpModel::Push(n, _) => {
            match qm_find(m.queues, n) {
                None => {
                },
                Some(k) => {
                    lemma_first_where_properties(m.queues, |q: QueueModel| q.name == n);
                    assert forall|i: int, j: int|
                        0 <= i < j < m2.queues.len() implies #[trigger] m2.queues[i].name
                        != #[trigger] m2.queues[j].name by {
                        assert(m2.queues[i].name == m.queues[i].name);
                        assert(m2.queues[j].name == m.queues[j].name);
                    }
                },
            }
        },
        NodeOpModel::Fetch(n) => {
            match qm_find(m.queues, n) {
                None => {
                },
                Some(k) => {
                    lemma_first_where_properties(m.queues, |q: QueueModel| q.name == n);
                    assert forall|i: int, j: int|
                        0 <= i < j < m2.queues.len() implies #[trigger] m2.queues[i].name
                        != #[trigger] m2.queues[j].name by {
                        assert(m2.queues[i].name == m.queues[i].name);
                        assert(m2.queues[j].name == m.queues[j].name);
                    }
                },
            }
        },
    }
}

/// The invariant survives an operation wherever in the tree it lands.
pub proof fn lemma_apply_at_wf(m: NodeModel, path: Seq<Seq<char>>, d: int, op: NodeOpModel)
    requires
        node_wf(m),
    ensures
        node_wf(apply_at_model(m, path, d, op).0),
    decreases path.len() - d,
{
    if d >= path.len() {
        lemma_apply_op_wf(m, op);
    } else {
        match node_find(m.children, path[d]) {
            None => {
            },
            Some(k) => {
                lemma_first_where_properties(m.children, |c: NodeModel| c.name == path[d]);
                lemma_apply_at_wf(m.children[k], path, d + 1, op);
                lemma_apply_at_keeps_name(m.children[k], path, d + 1, op);
                let m2 = apply_at_model(m, path, d, op).0;
                assert forall|i: int, j: int|
                    0 <= i < j < m2.children.len() implies #[trigger] m2.children[i].name
                    != #[trigger] m2.children[j].name by {
                    assert(m2.children[i].name == m.children[i].name);
                    assert(m2.children[j].name == m.children[j].name);
                }
            },
        }
    }
}

/// Two trees of the same shape: equal names and equally many children at
/// every node, whatever their queues hold.
pub open spec fn same_shape(a: NodeModel, b: NodeModel) -> bool
    decreases a,
{
    &&& a.name == b.name
    &&& a.children.len() == b.children.len()
    &&& forall|i: int|
        0 <= i < a.children.len() ==> same_shape(#[trigger] a.children[i], b.children[i])
}

pub proof fn lemma_same_shape_refl(m: NodeModel)
    ensures
        same_shape(m, m),
    decreases m,
{
    assert forall|i: int| 0 <= i < m.children.len() implies same_shape(
        #[trigger] m.children[i],
        m.children[i],
    ) by {
        lemma_same_shape_refl(m.children[i]);
    }
}

/// Whether an operation only touches queue contents, leaving the tree's
/// shape alone.
pub open spec fn is_queue_op(op: NodeOpModel) -> bool {
    match op {
        NodeOpModel::AddQueue(_) => true,
        NodeOpModel::DropQueue(_) => true,
        NodeOpModel::Push(_, _) => true,
        NodeOpModel::Fetch(_) => true,
        NodeOpModel::AddExchange(_) => false,
        NodeOpModel::DropExchange(_) => false,
    }
}

/// A queue operation applied anywhere preserves the tree's shape.
pub proof fn lemma_apply_at_same_shape(m: NodeModel, path: Seq<Seq<char>>, d: int, op: NodeOpModel)
    requires
        is_queue_op(op),
    ensures
        same_shape(m, apply_at_model(m, path, d, op).0),
    decreases path.len() - d,
{
    let m2 = apply_at_model(m, path, d, op).0;
    if d >= path.len() {
        assert(m2.children == m.children);
        assert forall|i: int| 0 <= i < m.children.len() implies same_shape(
            #[trigger] m.children[i],
            m2.children[i],
        ) by {
            lemma_same_shape_refl(m.children[i]);
        }
    } else {
        match node_find(m.children, path[d]) {
            None => {
                lemma_same_shape_refl(m);
            },
            Some(i) => {
                lemma_first_where_properties(m.children, |c: NodeModel| c.name == path[d]);
                lemma_apply_at_same_shape(m.children[i], path, d + 1, op);
                assert forall|j: int| 0 <= j < m.children.len() implies same_shape(
                    #[trigger] m.children[j],
                    m2.children[j],
                ) by {
                    if j != i {
                        lemma_same_shape_refl(m.children[j]);
                    }
                }
            },
        }
    }
}

/// Resolution sees only the tree's shape: trees of the same shape resolve
/// every routing key to the same paths.
pub proof fn lemma_walk_same_shape(a: NodeModel, b: NodeModel, segs: Seq<Seq<char>>, next: int)
    requires
        same_shape(a, b),
    ensures
        walk_model(a, segs, next) == walk_model(b, segs, next),
    decreases 3 - next,
{
    if 0 <= next <= 2 {
        let k = segs[next];
        assert forall|i: int| 0 <= i < a.children.len() implies #[trigger] a.children[i].name
            == b.children[i].name by {
            assert(same_shape(a.children[i], b.children[i]));
        }
        if is_stop_segment(k) || next == 2 {
        } else if is_wildcard_segment(k) {
            assert(Seq::new(a.children.len(), |i: int| seq![a.children[i].name]) =~= Seq::new(
                b.children.len(),
                |i: int| seq![b.children[i].name],
            ));
        } else {
            lemma_first_where_alike(a.children, b.children, |c: NodeModel| c.name == k);
            match node_find(a.children, k) {
                None => {
                },
                Some(i) => {
                    lemma_first_where_properties(a.children, |c: NodeModel| c.name == k);
                    lemma_walk_same_shape(a.children[i], b.children[i], segs, next + 1);
                },
            }
        }
    }
}

/// A named routing node owning child exchanges and queues.
pub struct Exchange {
    name: String,
    lower_exchange: Vec<Exchange>,
    queue_manager: QueueManager,
}

impl View for Exchange {
    type V = NodeModel;

    closed spec fn view(&self) -> NodeModel
        decreases self,
    {
        NodeModel {
            name: self.name@,
            children: Seq::new(
                self.lower_exchange.len() as nat,
                |i: int|
                    if 0 <= i < self.lower_exchange.len() {
                        self.lower_exchange[i]@
                    } else {
                        NodeModel { name: Seq::empty(), children: Seq::empty(), queues: Seq::empty() }
                    },
            ),
            queues: self.queue_manager@,
        }
    }
}

/// The paths (from the starting node, child names in order) of the nodes a
/// routing key resolves to, reading segment `next` at the current node:
/// a stop marker or hop 2 names the current node itself (the empty path),
/// the wildcard names every child, any other segment descends into the child
/// of that name and fails if it is absent.
pub open spec fn walk_model(m: NodeModel, segs: Seq<Seq<char>>, next: int) -> Option<
    Seq<Seq<Seq<char>>>,
>
    recommends
        segs.len() == 4,
    decreases 3 - next,
{
    if next > 2 || next < 0 {
        None
    } else {
        let k = segs[next];
        if is_stop_segment(k) || next == 2 {
            Some(seq![Seq::<Seq<char>>::empty()])
        } else if is_wildcard_segment(k) {
            Some(Seq::new(m.children.len(), |i: int| seq![m.children[i].name]))
        } else {
            match node_find(m.children, k) {
                None => None,
                Some(i) => match walk_model(m.children[i], segs, next + 1) {
                    None => None,
                    Some(ps) => Some(Seq::new(ps.len(), |j: int| seq![k] + ps[j])),
                },
            }
        }
    }
}

/// Wildcard fan-out: a `*` segment read at hop `next` resolves to exactly
/// the children present at that node, one single-hop path per child, in
/// child order — as many results as the node has children.
pub proof fn lemma_wildcard_fanout(m: NodeModel, segs: Seq<Seq<char>>, next: int)
    requires
        segs.len() == 4,
        0 <= next < 2,
        is_wildcard_segment(segs[next]),
    ensures
        walk_model(m, segs, next) is Some,
        walk_model(m, segs, next).unwrap().len() == m.children.len(),
        forall|i: int|
            0 <= i < m.children.len() ==> walk_model(m, segs, next).unwrap()[i] == seq![
                m.children[i].name,
            ],
{
    assert(!is_stop_segment(segs[next]));
}

impl Exchange {
    pub fn new(name: String) -> (r: Exchange)
        ensures
            r@.name == name@,
            r@.children == Seq::<NodeModel>::empty(),
            r@.queues == Seq::<QueueModel>::empty(),
    {
        let r = Exchange {
            name,
            lower_exchange: Vec::new(),
            queue_manager: QueueManager::new(),
        };
        proof {
            assert(r@.children =~= Seq::<NodeModel>::empty());
        }
        r
    }

    /// The node's own name.
    pub fn name(&self) -> (r: &String)
        ensures
            r@ == self@.name,
    {
        &self.name
    }

    fn find_child(&self, name: &String) -> (r: Option<usize>)
        ensures
            match r {
                Some(i) => i < self@.children.len() && node_find(self@.children, name@) == Some(
                    i as int,
                ),
                None => node_find(self@.children, name@) is None,
            },
    {
        proof {
            assert(forall|j: int|
                0 <= j < self.lower_exchange.len() ==> #[trigger] self@.children[j]
                    == self.lower_exchange[j]@);
        }
        let mut i: usize = 0;
        while i < self.lower_exchange.len()
            invariant
                i <= self.lower_exchange.len(),
                forall|j: int| 0 <= j < i ==> #[trigger] self@.children[j].name != name@,
                forall|j: int|
                    0 <= j < self.lower_exchange.len() ==> #[trigger] self@.children[j]
                        == self.lower_exchange[j]@,
            decreases self.lower_exchange.len() - i,
        {
            if *self.lower_exchange[i].name() == *name {
                proof {
                    lemma_first_where_found(
                        self@.children,
                        |c: NodeModel| c.name == name@,
                        i as int,
                    );
                }
                return Some(i);
            }
            i += 1;
        }
        proof {
            lemma_first_where_absent(self@.children, |c: NodeModel| c.name == name@);
        }
        None
    }

    /// Create an empty child exchange named `name`; an existing child of that
    /// name is kept untouched.
    pub fn add_exchange(&mut self, name: String)
        ensures
            final(self)@.name == old(self)@.name,
            final(self)@.queues == old(self)@.queues,
            final(self)@.children == if node_find(old(self)@.children, name@) is Some {
                old(self)@.children
            } else {
                old(self)@.children.push(
                    NodeModel { name: name@, children: Seq::empty(), queues: Seq::empty() },
                )
            },
    {
        if self.find_child(&name).is_none() {
            self.lower_exchange.push(Exchange::new(name));
            proof {
                assert(forall|j: int|
                    0 <= j < self.lower_exchange.len() ==> #[trigger] self@.children[j]
                        == self.lower_exchange[j]@);
                assert(self@.children =~= old(self)@.children.push(
                    self.lower_exchange[self.lower_exchange.len() - 1]@,
                ));
            }
        } else {
            proof {
                assert(self@.children =~= old(self)@.children);
            }
        }
    }

    /// The child exchange named `name`, if present.
    pub fn get_exchange(&self, name: &String) -> (r: Option<&Exchange>)
        ensures
            match r {
                Some(c) => {
                    &&& node_find(self@.children, name@) is Some
                    &&& c@ == self@.children[node_find(self@.children, name@).unwrap()]
                },
                None => node_find(self@.children, name@) is None,
            },
    {
        match self.find_child(name) {
            Some(i) => {
                proof {
                    assert(self@.children[i as int] == self.lower_exchange[i as int]@);
                }
                Some(&self.lower_exchange[i])
            },
            None => None,
        }
    }

    /// Remove the child named `name` and return it, subtree and all; with no
    /// child of that name nothing is removed. Afterwards no path through
    /// `name` resolves at this node.
    pub fn remove_exchange(&mut self, name: String) -> (r: Option<Exchange>)
        ensures
            final(self)@.name == old(self)@.name,
            final(self)@.queues == old(self)@.queues,
            match r {
                Some(c) => {
                    &&& node_find(old(self)@.children, name@) is Some
                    &&& c@ == old(self)@.children[node_find(old(self)@.children, name@).unwrap()]
                    &&& final(self)@.children == old(self)@.children.remove(
                        node_find(old(self)@.children, name@).unwrap(),
                    )
                },
                None => {
                    &&& node_find(old(self)@.children, name@) is None
                    &&& final(self)@.children == old(self)@.children
                },
            },
    {
        match self.find_child(&name) {
            Some(i) => {
                proof {
                    assert(old(self)@.children[i as int] == old(self).lower_exchange[i as int]@);
                }
                let c = self.lower_exchange.remove(i);
                proof {
                    assert(forall|j: int|
                        0 <= j < self.lower_exchange.len() ==> #[trigger] self@.children[j]
                            == self.lower_exchange[j]@);
                    assert(self@.children =~= old(self)@.children.remove(i as int));
                }
                Some(c)
            },
            None => {
                proof {
                    assert(self@.children =~= old(self)@.children);
                }
                None
            },
        }
    }

    /// Drop every child exchange, and with them all their descendants.
    pub fn remove_all_exchanges(&mut self)
        ensures
            final(self)@.name == old(self)@.name,
            final(self)@.queues == old(self)@.queues,
            final(self)@.children == Seq::<NodeModel>::empty(),
    {
        self.lower_exchange.clear();
        proof {
            assert(self@.children =~= Seq::<NodeModel>::empty());
        }
    }

    /// Create a queue named `name` at this node; idempotent by name.
    pub fn add_queue(&mut self, name: &String)
        ensures
            final(self)@.name == old(self)@.name,
            final(self)@.children == old(self)@.children,
            final(self)@.queues == if qm_find(old(self)@.queues, name@) is Some {
                old(self)@.queues
            } else {
                old(self)@.queues.push(QueueModel { name: name@, items: Seq::empty() })
            },
    {
        self.queue_manager.add(name);
        proof {
            assert(self@.children =~= old(self)@.children);
        }
    }

    /// The queue named `name` at this node, if present.
    pub fn get_queue(&self, name: &String) -> (r: Option<&Queue>)
        ensures
            match r {
                Some(q) => {
                    &&& qm_find(self@.queues, name@) is Some
                    &&& q@ == self@.queues[qm_find(self@.queues, name@).unwrap()]
                },
                None => qm_find(self@.queues, name@) is None,
            },
    {
        self.queue_manager.get(name)
    }

    /// Remove and return the queue named `name`; absent names remove nothing.
    pub fn remove_queue(&mut self, name: String) -> (r: Option<Queue>)
        ensures
            final(self)@.name == old(self)@.name,
            final(self)@.children == old(self)@.children,
            match r {
                Some(q) => {
                    &&& qm_find(old(self)@.queues, name@) is Some
                    &&& q@ == old(self)@.queues[qm_find(old(self)@.queues, name@).unwrap()]
                    &&& final(self)@.queues == old(self)@.queues.remove(
                        qm_find(old(self)@.queues, name@).unwrap(),
                    )
                },
                None => {
                    &&& qm_find(old(self)@.queues, name@) is None
                    &&& final(self)@.queues == old(self)@.queues
                },
            },
    {
        let r = self.queue_manager.remove(name);
        proof {
            assert(self@.children =~= old(self)@.children);
        }
        r
    }

    /// All queues of this node, in registration order.
    pub fn get_all_queues(&self) -> (r: &Vec<Queue>)
        ensures
            r@.len() == self@.queues.len(),
            forall|i: int| 0 <= i < self@.queues.len() ==> #[trigger] r@[i]@ == self@.queues[i],
    {
        self.queue_manager.get_all()
    }

    /// Resolve a routing key against this node, reading segment `next`
    /// first: the resolved nodes are returned as paths of child names
    /// relative to this node, in the order `walk_model` gives them.
    pub fn walk(&self, routing: &RoutingKey, next: usize) -> (r: Option<Vec<Vec<String>>>)
        requires
            routing.wf(),
        ensures
            match r {
                Some(paths) => walk_model(self@, routing.segments(), next as int) == Some(
                    paths.deep_view(),
                ),
                None => walk_model(self@, routing.segments(), next as int) is None,
            },
    {
        self.walk_readonly(routing, next)
    }

    /// The resolution behind `walk`; both read the tree without touching it.
    pub fn walk_readonly(&self, routing: &RoutingKey, next: usize) -> (r: Option<Vec<Vec<String>>>)
        requires
            routing.wf(),
        ensures
            match r {
                Some(paths) => walk_model(self@, routing.segments(), next as int) == Some(
                    paths.deep_view(),
                ),
                None => walk_model(self@, routing.segments(), next as int) is None,
            },
        decreases 3 - next,
    {
        if next > 2 {
            return None;
        }
        proof {
            assert(forall|j: int|
                0 <= j < self.lower_exchange.len() ==> #[trigger] self@.children[j]
                    == self.lower_exchange[j]@);
        }
        let seg = routing.segment(next);
        let kind = classify_segment(seg);
        let stay = match kind {
            SegmentKind::Stop => true,
            _ => next == 2,
        };
        if stay {
            let mut paths: Vec<Vec<String>> = Vec::new();
            paths.push(Vec::new());
            proof {
                assert(paths.deep_view() =~~= seq![Seq::<Seq<char>>::empty()]);
            }
            Some(paths)
        } else {
            match kind {
                SegmentKind::Wildcard => {
                    let mut paths: Vec<Vec<String>> = Vec::new();
                    let mut i: usize = 0;
                    while i < self.lower_exchange.len()
                        invariant
                            i <= self.lower_exchange.len(),
                            paths.deep_view().len() == i,
                            forall|j: int|
                                0 <= j < i ==> #[trigger] paths.deep_view()[j] == seq![
                                    self@.children[j].name,
                                ],
                            forall|j: int|
                                0 <= j < self.lower_exchange.len() ==> #[trigger] self@.children[j]
                                    == self.lower_exchange[j]@,
                        decreases self.lower_exchange.len() - i,
                    {
                        let ghost paths0 = paths.deep_view();
                        let mut path: Vec<String> = Vec::new();
                        path.push(self.lower_exchange[i].name().clone());
                        proof {
                            assert(path.deep_view() =~= seq![self@.children[i as int].name]);
                        }
                        paths.push(path);
                        proof {
                            assert(paths.deep_view() =~= paths0.push(
                                seq![self@.children[i as int].name],
                            ));
                        }
                        i += 1;
                    }
                    proof {
                        assert(paths.deep_view() =~= Seq::new(
                            self@.children.len(),
                            |i: int| seq![self@.children[i].name],
                        ));
                    }
                    Some(paths)
                },
                _ => {
                    match self.find_child(seg) {
                        None => None,
                        Some(i) => {
                            proof {
                                assert(self@.children[i as int] == self.lower_exchange[i as int]@);
                            }
                            match self.lower_exchange[i].walk_readonly(routing, next + 1) {
                                None => None,
                                Some(tails) => {
                                    let ghost k = routing.segments()[next as int];
                                    let ghost orig = tails.deep_view();
                                    let mut paths: Vec<Vec<String>> = Vec::new();
                                    let mut rest = tails;
                                    while rest.len() > 0
                                        invariant
                                            paths.deep_view().len() + rest.deep_view().len()
                                                == orig.len(),
                                            seg@ == k,
                                            forall|j: int|
                                                0 <= j < paths.deep_view().len()
                                                    ==> #[trigger] paths.deep_view()[j] == seq![k]
                                                    + orig[j],
                                            forall|j: int|
                                                0 <= j < rest.deep_view().len()
                                                    ==> #[trigger] rest.deep_view()[j] == orig[
                                                    paths.deep_view().len() + j
                                                ],
                                        decreases rest.len(),
                                    {
                                        let ghost rest0 = rest.deep_view();
                                        let ghost paths0 = paths.deep_view();
                                        let mut p = rest.remove(0);
                                        let ghost p0 = p.deep_view();
                                        proof {
                                            assert(p0 == rest0[0]);
                                            assert(rest.deep_view() =~= rest0.drop_first());
                                        }
                                        p.insert(0, seg.clone());
                                        proof {
                                            assert(p.deep_view() =~= seq![k] + p0);
                                        }
                                        paths.push(p);
                                        proof {
                                            assert(paths.deep_view() =~= paths0.push(
                                                seq![k] + p0,
                                            ));
                                        }
                                    }
                                    proof {
                                        assert(paths.deep_view() =~= Seq::new(
                                            orig.len(),
                                            |j: int| seq![k] + orig[j],
                                        ));
                                    }
                                    Some(paths)
                                },
                            }
                        },
                    }
                },
            }
        }
    }

    /// Execute one operation at this node.
    fn apply_op(&mut self, op: NodeOp) -> (r: (Option<QueueObject>, bool))
        ensures
            ({
                let (m2, res, flag) = apply_op_model(old(self)@, op@);
                &&& final(self)@ == m2
                &&& match r.0 {
                    Some(obj) => res == Some(obj@),
                    None => res is None,
                }
                &&& r.1 == flag
            }),
    {
        match op {
            NodeOp::AddQueue(n) => {
                self.add_queue(&n);
                proof {
                    assert(final(self)@ =~= apply_op_model(old(self)@, op@).0);
                }
                (None, false)
            },
            NodeOp::AddExchange(n) => {
                self.add_exchange(n);
                proof {
                    assert(final(self)@ =~= apply_op_model(old(self)@, op@).0);
                }
                (None, false)
            },
            NodeOp::DropQueue(n) => {
                self.remove_queue(n);
                proof {
                    assert(final(self)@ =~= apply_op_model(old(self)@, op@).0);
                }
                (None, false)
            },
            NodeOp::DropExchange(n) => {
                self.remove_exchange(n);
                proof {
                    assert(final(self)@ =~= apply_op_model(old(self)@, op@).0);
                }
                (None, false)
            },
            NodeOp::Push(n, obj) => {
                let ghost objv = obj@;
                match self.queue_manager.get_mut(&n) {
                    Some(q) => {
                        q.push_back(obj);
                    },
                    None => {
                    },
                }
                proof {
                    assert(final(self)@ =~~= apply_op_model(
                        old(self)@,
                        NodeOpModel::Push(n@, objv),
                    ).0);
                }
                (None, false)
            },
            NodeOp::Fetch(n) => {
                proof {
                    assert(op@ == NodeOpModel::Fetch(n@));
                }
                let ghost tgt = apply_op_model(old(self)@, NodeOpModel::Fetch(n@)).0;
                match self.queue_manager.get_mut(&n) {
                    Some(q) => {
                        let ghost q0 = q@;
                        let out = match q.pop_front() {
                            Some(obj) => (Some(obj), false),
                            None => {
                                let sentinel = QueueObject::new(&String::new(), Vec::new());
                                proof {
                                    assert(sentinel@ =~~= empty_sentinel());
                                }
                                (Some(sentinel), true)
                            },
                        };
                        proof {
                            lemma_first_where_properties(
                                old(self)@.queues,
                                |q: QueueModel| q.name == n@,
                            );
                            assert(q0 == old(self)@.queues[qm_find(
                                old(self)@.queues,
                                n@,
                            ).unwrap()]);
                            assert(after_borrow(self)@.queues =~~= tgt.queues);
                            assert(after_borrow(self)@ =~~= tgt);
                        }
                        out
                    },
                    None => {
                        proof {
                            assert(self@ =~~= tgt);
                        }
                        (None, false)
                    },
                }
            },
        }
    }

    /// Execute one operation at the node `path` leads to from here; a path
    /// through a missing child changes nothing and returns nothing.
    pub fn apply_at(&mut self, path: &Vec<String>, d: usize, op: NodeOp) -> (r: (
        Option<QueueObject>,
        bool,
    ))
        requires
            d <= path@.len(),
        ensures
            ({
                let (m2, res, flag) = apply_at_model(old(self)@, path.deep_view(), d as int, op@);
                &&& final(self)@ == m2
                &&& match r.0 {
                    Some(obj) => res == Some(obj@),
                    None => res is None,
                }
                &&& r.1 == flag
            }),
        decreases path@.len() - d,
    {
        if d == path.len() {
            self.apply_op(op)
        } else {
            proof {
                assert(path.deep_view()[d as int] == path[d as int]@);
                assert(forall|j: int|
                    0 <= j < old(self).lower_exchange.len() ==> #[trigger] old(self)@.children[j]
                        == old(self).lower_exchange[j]@);
            }
            match self.find_child(&path[d]) {
                None => (None, false),
                Some(i) => {
                    proof {
                        assert(old(self)@.children[i as int] == old(self).lower_exchange[i as int]@);
                    }
                    let r = self.lower_exchange[i].apply_at(path, d + 1, op);
                    proof {
                        assert(forall|j: int|
                            0 <= j < self.lower_exchange.len() ==> #[trigger] self@.children[j]
                                == self.lower_exchange[j]@);
                        assert(self@.children =~= apply_at_model(
                            old(self)@,
                            path.deep_view(),
                            d as int,
                            op@,
                        ).0.children);
                        assert(self@ =~= apply_at_model(
                            old(self)@,
                            path.deep_view(),
                            d as int,
                            op@,
                        ).0);
                    }
                    r
                },
            }
        }
    }

    /// The node `path` leads to from here, if every hop names an existing
    /// child.
    pub fn at_path(&self, path: &Vec<String>, d: usize) -> (r: Option<&Exchange>)
        requires
            d <= path@.len(),
        ensures
            match r {
                Some(node) => node_at_model(self@, path.deep_view(), d as int) == Some(node@),
                None => node_at_model(self@, path.deep_view(), d as int) is None,
            },
        decreases path@.len() - d,
    {
        if d == path.len() {
            Some(self)
        } else {
            proof {
                assert(path.deep_view()[d as int] == path[d as int]@);
            }
            match self.find_child(&path[d]) {
                None => None,
                Some(i) => {
                    proof {
                        assert(self@.children[i as int] == self.lower_exchange[i as int]@);
                    }
                    self.lower_exchange[i].at_path(path, d + 1)
                },
            }
        }
    }

    /// Empty the queue named `name`; a missing queue is left missing.
    pub fn clear_queue(&mut self, name: String)
        ensures
            final(self)@.name == old(self)@.name,
            final(self)@.children == old(self)@.children,
            final(self)@.queues == match qm_find(old(self)@.queues, name@) {
                Some(i) => old(self)@.queues.update(
                    i,
                    QueueModel { name: old(self)@.queues[i].name, items: Seq::empty() },
                ),
                None => old(self)@.queues,
            },
    {
        match self.queue_manager.get_mut(&name) {
            Some(q) => {
                q.clear();
            },
            None => {
            },
        }
        proof {
            assert(self@.children =~= old(self)@.children);
            if qm_find(old(self)@.queues, name@) is None {
                assert(self@.queues =~= old(self)@.queues);
            }
        }
    }
}

} // verus!
