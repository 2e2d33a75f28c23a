//! Workflow graphs: nodes, edges, and the execution order.
//!
//! The order is computed by repeatedly emitting the first node all of
//! whose incoming edges come from already-emitted nodes. The order is a
//! topological sort; nodes on a cycle (and nodes behind one) are never
//! emitted and are skipped.

use vstd::prelude::*;

verus! {

use vstd::string::StringExecFns;
use crate::json::{JsonModel, JsonValue};
use crate::strutil::str_eq;

/// A graph node: an identifier, a node type such as `start` or `http`,
/// and free-form properties.
pub struct LogicFlowNode {
    pub id: String,
    pub node_type: String,
    pub properties: JsonValue,
}

/// A directed edge: data flows from `source` to `target`.
pub struct LogicFlowEdge {
    pub id: String,
    pub source: String,
    pub target: String,
}

/// A workflow graph.
pub struct LogicFlowGraph {
    pub nodes: Vec<LogicFlowNode>,
    pub edges: Vec<LogicFlowEdge>,
}

pub struct NodeModel {
    pub id: Seq<char>,
    pub node_type: Seq<char>,
    pub properties: JsonModel,
}

pub struct EdgeModel {
    pub id: Seq<char>,
    pub source: Seq<char>,
    pub target: Seq<char>,
}

pub struct GraphModel {
    pub nodes: Seq<NodeModel>,
    pub edges: Seq<EdgeModel>,
}

impl View for LogicFlowNode {
    type V = NodeModel;

    open spec fn view(&self) -> NodeModel {
        NodeModel { id: self.id@, node_type: self.node_type@, properties: self.properties@ }
    }
}

impl View for LogicFlowEdge {
    type V = EdgeModel;

    open spec fn view(&self) -> EdgeModel {
        EdgeModel { id: self.id@, source: self.source@, target: self.target@ }
    }
}

/// The models of a sequence of nodes.
pub open spec fn node_models(s: Seq<LogicFlowNode>) -> Seq<NodeModel> {
    Seq::new(s.len(), |i: int| s[i]@)
}

/// The models of a sequence of edges.
pub open spec fn edge_models(s: Seq<LogicFlowEdge>) -> Seq<EdgeModel> {
    Seq::new(s.len(), |i: int| s[i]@)
}

impl View for LogicFlowGraph {
    type V = GraphModel;

    open spec fn view(&self) -> GraphModel {
        GraphModel { nodes: node_models(self.nodes@), edges: edge_models(self.edges@) }
    }
}

impl GraphModel {
    /// Node identifiers are pairwise distinct.
    pub open spec fn wf(self) -> bool {
        forall|i: int, j: int| 0 <= i < j < self.nodes.len() ==> self.nodes[i].id
            != self.nodes[j].id
    }
}

/// Some emitted node carries this identifier.
pub open spec fn source_emitted(g: GraphModel, emitted: Seq<bool>, src: Seq<char>) -> bool {
    exists|j: int| 0 <= j < g.nodes.len() && j < emitted.len() && emitted[j] && g.nodes[j].id
        == src
}

/// The node at index `i` can be emitted next: it has not been emitted,
/// and every edge pointing at it leaves an emitted node.
pub open spec fn node_ready(g: GraphModel, emitted: Seq<bool>, i: int) -> bool {
    &&& 0 <= i < g.nodes.len()
    &&& i < emitted.len()
    &&& !emitted[i]
    &&& forall|e: int| 0 <= e < g.edges.len() && g.edges[e].target == g.nodes[i].id
        ==> source_emitted(g, emitted, g.edges[e].source)
}

/// No edge points at the node at index `i`.
pub open spec fn no_incoming(g: GraphModel, i: int) -> bool {
    forall|e: int| 0 <= e < g.edges.len() ==> g.edges[e].target != g.nodes[i].id
}

/// The first ready node at or after index `i`.
pub open spec fn pick_from(g: GraphModel, emitted: Seq<bool>, i: int) -> Option<int>
    decreases g.nodes.len() - i,
{
    if i < 0 || i >= g.nodes.len() {
        None
    } else if node_ready(g, emitted, i) {
        Some(i)
    } else {
        pick_from(g, emitted, i + 1)
    }
}

pub proof fn lemma_pick_from(g: GraphModel, emitted: Seq<bool>, i: int)
    requires
        0 <= i,
    ensures
        match pick_from(g, emitted, i) {
            Some(j) => i <= j < g.nodes.len() && node_ready(g, emitted, j) && forall|l: int|
                i <= l < j ==> !node_ready(g, emitted, l),
            None => forall|l: int| i <= l < g.nodes.len() ==> !node_ready(g, emitted, l),
        },
    decreases g.nodes.len() - i,
{
    if i >= g.nodes.len() {
    } else if node_ready(g, emitted, i) {
    } else {
        lemma_pick_from(g, emitted, i + 1);
    }
}

/// How many entries are still false.
pub open spec fn num_false(s: Seq<bool>) -> nat
    decreases s.len(),
{
    if s.len() == 0 {
        0
    } else {
        (if s[0] {
            0nat
        } else {
            1nat
        }) + num_false(s.drop_first())
    }
}

pub proof fn lemma_num_false_update(s: Seq<bool>, i: int)
    requires
        0 <= i < s.len(),
        !s[i],
    ensures
        num_false(s.update(i, true)) < num_false(s),
    decreases s.len(),
{
    if i == 0 {
        assert(s.update(0, true).drop_first() =~= s.drop_first());
    } else {
        assert(s.update(i, true).drop_first() =~= s.drop_first().update(i - 1, true));
        lemma_num_false_update(s.drop_first(), i - 1);
    }
}

/// The emission loop: starting from the given emitted marks, repeatedly
/// emit the first ready node, and return the indices emitted so far plus
/// those emitted by the loop.
pub open spec fn spec_topo_loop(g: GraphModel, emitted: Seq<bool>, acc: Seq<int>) -> Seq<int>
    decreases num_false(emitted),
    via topo_loop_decreases
{
    match pick_from(g, emitted, 0) {
        Some(i) => if 0 <= i < emitted.len() && !emitted[i] {
            spec_topo_loop(g, emitted.update(i, true), acc.push(i))
        } else {
            acc
        },
        None => acc,
    }
}

#[via_fn]
proof fn topo_loop_decreases(g: GraphModel, emitted: Seq<bool>, acc: Seq<int>) {
    match pick_from(g, emitted, 0) {
        Some(i) => {
            if 0 <= i < emitted.len() && !emitted[i] {
                lemma_num_false_update(emitted, i);
            }
        },
        None => {},
    }
}

/// The indices of the nodes in execution order.
pub open spec fn spec_topo_indices(g: GraphModel) -> Seq<int> {
    spec_topo_loop(g, Seq::new(g.nodes.len(), |i: int| false), Seq::<int>::empty())
}

fn source_emitted_exec(graph: &LogicFlowGraph, emitted: &Vec<bool>, src: &String) -> (r: bool)
    ensures
        r == source_emitted(graph@, emitted@, src@),
{
    let mut j: usize = 0;
    while j < graph.nodes.len()
        invariant
            j <= graph.nodes.len(),
            forall|l: int| 0 <= l < j ==> !(l < graph@.nodes.len() && l < emitted@.len()
                && emitted@[l] && graph@.nodes[l].id == src@),
        decreases graph.nodes.len() - j,
    {
        if j < emitted.len() && emitted[j] && str_eq(graph.nodes[j].id.as_str(), src.as_str()) {
            assert(source_emitted(graph@, emitted@, src@));
            return true;
        }
        j = j + 1;
    }
    false
}

fn node_ready_exec(graph: &LogicFlowGraph, emitted: &Vec<bool>, i: usize) -> (r: bool)
    requires
        i < graph.nodes@.len(),
        emitted@.len() == graph.nodes@.len(),
    ensures
        r == node_ready(graph@, emitted@, i as int),
{
    if emitted[i] {
        return false;
    }
    let mut e: usize = 0;
    while e < graph.edges.len()
        invariant
            e <= graph.edges.len(),
            i < graph.nodes@.len(),
            emitted@.len() == graph.nodes@.len(),
            !emitted@[i as int],
            forall|l: int| 0 <= l < e && graph@.edges[l].target == graph@.nodes[i as int].id
                ==> source_emitted(graph@, emitted@, graph@.edges[l].source),
        decreases graph.edges.len() - e,
    {
        if str_eq(graph.edges[e].target.as_str(), graph.nodes[i].id.as_str()) {
            if !source_emitted_exec(graph, emitted, &graph.edges[e].source) {
                assert(graph@.edges[e as int].target == graph@.nodes[i as int].id);
                assert(!source_emitted(graph@, emitted@, graph@.edges[e as int].source));
                assert(!node_ready(graph@, emitted@, i as int));
                return false;
            }
        }
        e = e + 1;
    }
    true
}

fn find_ready(graph: &LogicFlowGraph, emitted: &Vec<bool>) -> (r: Option<usize>)
    requires
        emitted@.len() == graph.nodes@.len(),
    ensures
        match r {
            Some(i) => Some(i as int) == pick_from(graph@, emitted@, 0) && i
                < graph.nodes@.len() && node_ready(graph@, emitted@, i as int),
            None => pick_from(graph@, emitted@, 0) is None,
        },
{
    let mut i: usize = 0;
    while i < graph.nodes.len()
        invariant
            i <= graph.nodes@.len(),
            emitted@.len() == graph.nodes@.len(),
            forall|l: int| 0 <= l < i ==> !node_ready(graph@, emitted@, l),
        decreases graph.nodes.len() - i,
    {
        if node_ready_exec(graph, emitted, i) {
            proof {
                lemma_pick_from(graph@, emitted@, 0);
                match pick_from(graph@, emitted@, 0) {
                    Some(j2) => {
                        if j2 < i {
                            assert(!node_ready(graph@, emitted@, j2));
                        }
                        if (i as int) < j2 {
                            assert(!node_ready(graph@, emitted@, i as int));
                        }
                    },
                    None => {
                        assert(!node_ready(graph@, emitted@, i as int));
                    },
                }
            }
            return Some(i);
        }
        i = i + 1;
    }
    proof {
        lemma_pick_from(graph@, emitted@, 0);
        match pick_from(graph@, emitted@, 0) {
            Some(j2) => {
                assert(!node_ready(graph@, emitted@, j2));
            },
            None => {},
        }
    }
    None
}

/// The execution order is a topological sort of the emitted nodes: for
/// every edge, if the target was emitted, the source was emitted earlier.
pub open spec fn topo_sorted(g: GraphModel, order: Seq<int>) -> bool {
    forall|e: int, ti: int|
        0 <= e < g.edges.len() && 0 <= ti < order.len() && 0 <= order[ti] < g.nodes.len()
            && g.edges[e].target == g.nodes[order[ti]].id ==> exists|si: int|
            0 <= si < ti && 0 <= order[si] < g.nodes.len() && g.nodes[order[si]].id
                == g.edges[e].source
}

/// The indices as mathematical integers.
pub open spec fn order_ints(order: Seq<usize>) -> Seq<int> {
    Seq::new(order.len(), |k: int| order[k] as int)
}

/// What holds of a computed execution order: it is exactly the spec
/// order, nonempty, within bounds, free of repeats, and topological.
pub open spec fn topo_order_ok(g: GraphModel, order: Seq<usize>) -> bool {
    &&& order_ints(order) == spec_topo_indices(g)
    &&& order.len() > 0
    &&& forall|k: int| 0 <= k < order.len() ==> order[k] < g.nodes.len()
    &&& forall|k1: int, k2: int| 0 <= k1 < k2 < order.len() ==> order[k1] != order[k2]
    &&& topo_sorted(g, order_ints(order))
}

/// The execution order of the graph's nodes, as indices into `nodes`.
///
/// The order holds exactly the nodes reachable through fully-resolved
/// dependencies; it is a topological sort of them. An order with no node
/// at all (an empty graph, or every node waiting on an edge) is an error.
pub fn topological_order(graph: &LogicFlowGraph) -> (r: Result<Vec<usize>, String>)
    requires
        graph@.wf(),
    ensures
        (r matches Ok(order) ==> topo_order_ok(graph@, order@)),
        (r is Err ==> spec_topo_indices(graph@).len() == 0),
        ((r is Ok) == (spec_topo_indices(graph@).len() > 0)),
{
    let n = graph.nodes.len();
    let mut emitted: Vec<bool> = Vec::new();
    let mut k: usize = 0;
    while k < n
        invariant
            k <= n,
            emitted@.len() == k,
            forall|l: int| 0 <= l < k ==> !emitted@[l],
        decreases n - k,
    {
        emitted.push(false);
        k = k + 1;
    }
    assert(emitted@ =~= Seq::new(graph@.nodes.len(), |i: int| false));

    let mut order: Vec<usize> = Vec::new();
    let ghost g = graph@;
    let ghost mut ord: Seq<int> = Seq::<int>::empty();
    let mut done = false;
    while !done
        invariant
            graph@ == g,
            g.wf(),
            n == g.nodes.len(),
            emitted@.len() == n,
            ord.len() == order@.len(),
            forall|k: int| 0 <= k < ord.len() ==> #[trigger] ord[k] == order@[k] as int,
            spec_topo_loop(g, emitted@, ord) == spec_topo_indices(g),
            forall|k: int| 0 <= k < ord.len() ==> 0 <= #[trigger] ord[k] < g.nodes.len(),
            forall|j: int| 0 <= j < n ==> (#[trigger] emitted@[j] <==> exists|k: int|
                0 <= k < ord.len() && ord[k] == j),
            forall|k1: int, k2: int| 0 <= k1 < k2 < ord.len() ==> ord[k1] != ord[k2],
            topo_sorted(g, ord),
            done ==> pick_from(g, emitted@, 0) is None,
        decreases num_false(emitted@), (if done { 0int } else { 1int }),
    {
        let ghost ord0 = ord;
        let ghost em0 = emitted@;
        match find_ready(graph, &emitted) {
            Some(i) => {
                proof {
                    lemma_num_false_update(em0, i as int);
                }
                emitted.set(i, true);
                order.push(i);
                proof {
                    lemma_topo_loop_step(g, em0, ord0, i as int);
                    lemma_emit_step(g, em0, ord0, i as int);
                    ord = ord0.push(i as int);
                    assert(emitted@ == em0.update(i as int, true));
                }
            },
            None => {
                done = true;
            },
        }
    }
    proof {
        assert(spec_topo_loop(g, emitted@, ord) == ord);
        assert(spec_topo_indices(g) == ord);
    }
    if order.len() == 0 {
        Err(String::from_str("graph is empty or invalid"))
    } else {
        proof {
            assert(order_ints(order@) =~= ord);
            assert forall|k: int| 0 <= k < order@.len() implies order@[k] < g.nodes.len() by {
                assert(ord[k] == order@[k] as int);
            }
            assert forall|k1: int, k2: int|
                0 <= k1 < k2 < order@.len() implies order@[k1] != order@[k2] by {
                assert(ord[k1] == order@[k1] as int);
                assert(ord[k2] == order@[k2] as int);
            }
            assert(topo_order_ok(g, order@));
        }
        Ok(order)
    }
}

/// The emission loop only ever grows the accumulator.
proof fn lemma_topo_loop_len(g: GraphModel, emitted: Seq<bool>, acc: Seq<int>)
    ensures
        spec_topo_loop(g, emitted, acc).len() >= acc.len(),
    decreases num_false(emitted),
{
    match pick_from(g, emitted, 0) {
        Some(i) => {
            if 0 <= i < emitted.len() && !emitted[i] {
                lemma_num_false_update(emitted, i);
                lemma_topo_loop_len(g, emitted.update(i, true), acc.push(i));
            }
        },
        None => {},
    }
}

/// The order is empty exactly when no node is free of incoming edges:
/// such a graph (empty, or every node waiting on an edge) is the error
/// case of `topological_order`.
pub proof fn lemma_order_nonempty_iff_source(g: GraphModel)
    ensures
        (spec_topo_indices(g).len() > 0) <==> (exists|i: int|
            0 <= i < g.nodes.len() && no_incoming(g, i)),
{
    let init = Seq::new(g.nodes.len(), |i: int| false);
    lemma_pick_from(g, init, 0);
    assert forall|i: int| 0 <= i < g.nodes.len() implies (node_ready(g, init, i) <==> no_incoming(
        g,
        i,
    )) by {
        assert(!init[i]);
        assert forall|s: Seq<char>| !source_emitted(g, init, s) by {
            if source_emitted(g, init, s) {
                let j = choose|j: int|
                    0 <= j < g.nodes.len() && j < init.len() && init[j] && g.nodes[j].id == s;
                assert(!init[j]);
            }
        }
    }
    match pick_from(g, init, 0) {
        Some(i) => {
            assert(no_incoming(g, i));
            assert(spec_topo_indices(g) == spec_topo_loop(g, init.update(i, true), seq![i]));
            lemma_topo_loop_len(g, init.update(i, true), seq![i]);
        },
        None => {
            assert(spec_topo_indices(g) == Seq::<int>::empty());
            if exists|i: int| 0 <= i < g.nodes.len() && no_incoming(g, i) {
                let i = choose|i: int| 0 <= i < g.nodes.len() && no_incoming(g, i);
                assert(!node_ready(g, init, i));
            }
        },
    }
}

/// Unfolding one emission step of the spec loop.
proof fn lemma_topo_loop_step(g: GraphModel, em0: Seq<bool>, ord0: Seq<int>, i: int)
    requires
        pick_from(g, em0, 0) == Some(i),
        0 <= i < em0.len(),
        !em0[i],
    ensures
        spec_topo_loop(g, em0, ord0) == spec_topo_loop(g, em0.update(i, true), ord0.push(i)),
{
}

/// Emitting a ready node keeps every loop invariant: indices stay in
/// range and distinct, the marks keep matching the order list, and the
/// order stays topological.
proof fn lemma_emit_step(g: GraphModel, em0: Seq<bool>, ord0: Seq<int>, i: int)
    requires
        em0.len() == g.nodes.len(),
        node_ready(g, em0, i),
        forall|k: int| 0 <= k < ord0.len() ==> 0 <= #[trigger] ord0[k] < g.nodes.len(),
        forall|j: int| 0 <= j < em0.len() ==> (#[trigger] em0[j] <==> exists|k: int|
            0 <= k < ord0.len() && ord0[k] == j),
        forall|k1: int, k2: int| 0 <= k1 < k2 < ord0.len() ==> ord0[k1] != ord0[k2],
        topo_sorted(g, ord0),
    ensures
        forall|k: int| 0 <= k < ord0.push(i).len() ==> 0 <= #[trigger] ord0.push(i)[k]
            < g.nodes.len(),
        forall|j: int| 0 <= j < em0.len() ==> (#[trigger] em0.update(i, true)[j] <==> exists|
            k: int,
        | 0 <= k < ord0.push(i).len() && ord0.push(i)[k] == j),
        forall|k1: int, k2: int| 0 <= k1 < k2 < ord0.push(i).len() ==> ord0.push(i)[k1]
            != ord0.push(i)[k2],
        topo_sorted(g, ord0.push(i)),
{
    let ord1 = ord0.push(i);
    let em1 = em0.update(i, true);
    assert forall|j: int| 0 <= j < em0.len() implies (#[trigger] em1[j] <==> exists|k: int|
        0 <= k < ord1.len() && ord1[k] == j) by {
        if j == i {
            assert(ord1[ord0.len() as int] == i);
        } else {
            assert(em1[j] == em0[j]);
            if em0[j] {
                let k = choose|k: int| 0 <= k < ord0.len() && ord0[k] == j;
                assert(ord1[k] == j);
            } else {
                assert forall|k: int| 0 <= k < ord1.len() implies ord1[k] != j by {
                    if k < ord0.len() {
                        assert(ord1[k] == ord0[k]);
                        if ord0[k] == j {
                            assert(em0[j]);
                        }
                    } else {
                        assert(ord1[k] == i);
                    }
                }
            }
        }
    }
    assert forall|k1: int, k2: int| 0 <= k1 < k2 < ord1.len() implies ord1[k1] != ord1[k2] by {
        if k2 == ord0.len() {
            assert(ord1[k2] == i);
            assert(ord1[k1] == ord0[k1]);
            if ord0[k1] == i {
                assert(em0[i]);
            }
        } else {
            assert(ord1[k1] == ord0[k1] && ord1[k2] == ord0[k2]);
        }
    }
    assert forall|e: int, ti: int|
        0 <= e < g.edges.len() && 0 <= ti < ord1.len() && 0 <= ord1[ti] < g.nodes.len()
            && g.edges[e].target == g.nodes[ord1[ti]].id implies exists|si: int|
        0 <= si < ti && 0 <= ord1[si] < g.nodes.len() && g.nodes[ord1[si]].id
            == g.edges[e].source by {
        if ti < ord0.len() {
            assert(ord1[ti] == ord0[ti]);
            assert(0 <= ord0[ti] < g.nodes.len() && g.edges[e].target == g.nodes[ord0[ti]].id);
            let si = choose|si: int|
                0 <= si < ti && 0 <= ord0[si] < g.nodes.len() && g.nodes[ord0[si]].id
                    == g.edges[e].source;
            assert(ord1[si] == ord0[si]);
        } else {
            assert(ti == ord0.len());
            assert(ord1[ti] == i);
            assert(source_emitted(g, em0, g.edges[e].source));
            let j = choose|j: int|
                0 <= j < g.nodes.len() && j < em0.len() && em0[j] && g.nodes[j].id
                    == g.edges[e].source;
            let si = choose|k: int| 0 <= k < ord0.len() && ord0[k] == j;
            assert(ord0[si] == j);
            assert(ord1[si] == j);
        }
    }
}

} // verus!
