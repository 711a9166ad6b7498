//! The control-flow graph: statement nodes and typed edges, stored in an
//! index-based graph.

use crate::labels::DataLabel;
use crate::text::{opt_text, texts};
use petgraph::graph::{EdgeIndex, Graph, NodeIndex};
use petgraph::Directed;
use vstd::prelude::*;

verus! {

/// What kind of statement a node of the graph stands for.
#[derive(Debug, Clone, Copy, PartialEq, Eq, Structural, Hash)]
pub enum StmtKind {
    Entry,
    Exit,
    /// A statement that passes control on to the next one.
    Sequential,
    If,
    Loop,
    Break,
    Continue,
    Return,
    Call,
}

/// How control passes along an edge.
#[derive(Debug, Clone, Copy, PartialEq, Eq, Structural, Hash)]
pub enum EdgeKind {
    /// Ordinary fall-through.
    Sequential,
    /// The branch taken when a condition holds.
    True,
    /// The branch taken when a condition does not hold.
    False,
    /// The edge that closes a loop.
    Back,
}

/// One statement of the graph.
#[derive(Debug)]
pub struct NodeInfo {
    pub kind: StmtKind,
    /// Byte offsets of the statement in the file.
    pub span: (usize, usize),
    pub label: Option<DataLabel>,
    /// The variable that the statement writes.
    pub defines: Option<String>,
    /// The variables that the statement reads.
    pub uses: Vec<String>,
    pub callee: Option<String>,
}

/// A statement as mathematical data.
pub struct NodeModel {
    pub kind: StmtKind,
    pub span: (usize, usize),
    pub label: Option<DataLabel>,
    pub defines: Option<Seq<char>>,
    pub uses: Seq<Seq<char>>,
    pub callee: Option<Seq<char>>,
}

impl View for NodeInfo {
    type V = NodeModel;

    open spec fn view(&self) -> NodeModel {
        NodeModel {
            kind: self.kind,
            span: self.span,
            label: self.label,
            defines: opt_text(self.defines),
            uses: texts(self.uses@),
            callee: opt_text(self.callee),
        }
    }
}

/// A copy of a list of names.
pub fn clone_names(v: &Vec<String>) -> (r: Vec<String>)
    ensures
        r@ == v@,
{
    let mut r: Vec<String> = Vec::new();
    let mut i: usize = 0;
    while i < v.len()
        invariant
            i <= v.len(),
            r@ == v@.take(i as int),
        decreases v.len() - i,
    {
        r.push(v[i].clone());
        i += 1;
    }
    r
}

/// A copy of an optional name.
pub fn clone_name(s: &Option<String>) -> (r: Option<String>)
    ensures
        r == *s,
{
    match s {
        Some(t) => Some(t.clone()),
        None => None,
    }
}

impl Clone for NodeInfo {
    fn clone(&self) -> (r: Self)
        ensures
            r@ == self@,
    {
        NodeInfo {
            kind: self.kind,
            span: (self.span.0, self.span.1),
            label: self.label,
            defines: clone_name(&self.defines),
            uses: clone_names(&self.uses),
            callee: clone_name(&self.callee),
        }
    }
}

/// An edge as mathematical data: source, target and kind.
pub struct EdgeModel {
    pub src: int,
    pub dst: int,
    pub kind: EdgeKind,
}

/// A graph as mathematical data: the nodes in the order of their indices and
/// the edges in the order in which they were added.
pub struct CfgModel {
    pub nodes: Seq<NodeModel>,
    pub edges: Seq<EdgeModel>,
}

/// `petgraph::graph::Graph`, taken as it is: nothing of what a graph holds
/// is known but through the functions below.
#[verifier::external_type_specification]
#[verifier::external_body]
#[verifier::reject_recursive_types(N)]
#[verifier::reject_recursive_types(E)]
#[verifier::reject_recursive_types(Ty)]
#[verifier::reject_recursive_types(Ix)]
pub struct ExGraph<N, E, Ty, Ix>(Graph<N, E, Ty, Ix>);

/// `petgraph::Directed`, the marker of graphs whose edges have a direction.
#[verifier::external_type_specification]
#[verifier::external_body]
pub struct ExDirected(Directed);

/// The node weights of a graph, by node index.
pub uninterp spec fn graph_nodes(g: Graph<NodeInfo, EdgeKind, Directed, u32>) -> Seq<NodeInfo>;

/// The edges of a graph as (source, target, weight), by edge index.
pub uninterp spec fn graph_edges(g: Graph<NodeInfo, EdgeKind, Directed, u32>) -> Seq<
    (usize, usize, EdgeKind),
>;

/// The largest number of nodes, and of edges, that the graph can index.
pub const INDEX_LIMIT: usize = 0xffff_ffff;

/// The targets of the edges that leave `a`, the edge added last first.
pub open spec fn targets_newest_first(edges: Seq<(usize, usize, EdgeKind)>, a: usize) -> Seq<
    usize,
>
    decreases edges.len(),
{
    if edges.len() == 0 {
        Seq::empty()
    } else if edges.last().0 == a {
        seq![edges.last().1] + targets_newest_first(edges.drop_last(), a)
    } else {
        targets_newest_first(edges.drop_last(), a)
    }
}

/// `Graph::new`: a graph without nodes and edges.
#[verifier::external_body]
fn graph_new() -> (g: Graph<NodeInfo, EdgeKind, Directed, u32>)
    ensures
        graph_nodes(g).len() == 0,
        graph_edges(g).len() == 0,
{
    Graph::new()
}

/// `Graph::node_count`.
#[verifier::external_body]
fn graph_node_count(g: &Graph<NodeInfo, EdgeKind, Directed, u32>) -> (n: usize)
    ensures
        n == graph_nodes(*g).len(),
{
    g.node_count()
}

/// `Graph::edge_count`.
#[verifier::external_body]
fn graph_edge_count(g: &Graph<NodeInfo, EdgeKind, Directed, u32>) -> (n: usize)
    ensures
        n == graph_edges(*g).len(),
{
    g.edge_count()
}

/// `Graph::add_node`: the weight is appended and gets the next index; the
/// edges stay. The graph must be below its index limit.
#[verifier::external_body]
fn graph_add_node(g: &mut Graph<NodeInfo, EdgeKind, Directed, u32>, w: NodeInfo) -> (i: usize)
    requires
        graph_nodes(*old(g)).len() < INDEX_LIMIT,
    ensures
        graph_nodes(*final(g)) == graph_nodes(*old(g)).push(w),
        graph_edges(*final(g)) == graph_edges(*old(g)),
        i == graph_nodes(*old(g)).len(),
{
    g.add_node(w).index()
}

/// `Graph::add_edge`: the edge is appended; the nodes stay. Both ends must
/// exist and the graph must be below its index limit.
#[verifier::external_body]
fn graph_add_edge(
    g: &mut Graph<NodeInfo, EdgeKind, Directed, u32>,
    a: usize,
    b: usize,
    w: EdgeKind,
)
    requires
        a < graph_nodes(*old(g)).len(),
        b < graph_nodes(*old(g)).len(),
        graph_nodes(*old(g)).len() <= INDEX_LIMIT,
        graph_edges(*old(g)).len() < INDEX_LIMIT,
    ensures
        graph_nodes(*final(g)) == graph_nodes(*old(g)),
        graph_edges(*final(g)) == graph_edges(*old(g)).push((a, b, w)),
{
    g.add_edge(NodeIndex::new(a), NodeIndex::new(b), w);
}

/// Indexing a graph by a node index: the weight of that node.
#[verifier::external_body]
fn graph_node(g: &Graph<NodeInfo, EdgeKind, Directed, u32>, i: usize) -> (w: &NodeInfo)
    requires
        i < graph_nodes(*g).len(),
        graph_nodes(*g).len() <= INDEX_LIMIT,
    ensures
        *w == graph_nodes(*g)[i as int],
{
    &g[NodeIndex::new(i)]
}

/// `Graph::neighbors`: the targets of the edges that leave `a`, in reverse
/// order of their addition.
#[verifier::external_body]
fn graph_neighbors(g: &Graph<NodeInfo, EdgeKind, Directed, u32>, a: usize) -> (r: Vec<usize>)
    requires
        a < graph_nodes(*g).len(),
        graph_nodes(*g).len() <= INDEX_LIMIT,
    ensures
        r@ == targets_newest_first(graph_edges(*g), a),
{
    g.neighbors(NodeIndex::new(a)).map(|n| n.index()).collect()
}

/// `Graph::raw_edges`, at one index: the ends and the weight of that edge.
#[verifier::external_body]
fn graph_edge(g: &Graph<NodeInfo, EdgeKind, Directed, u32>, i: usize) -> (e: (
    usize,
    usize,
    EdgeKind,
))
    requires
        i < graph_edges(*g).len(),
    ensures
        e == graph_edges(*g)[i as int],
{
    let e = &g.raw_edges()[i];
    (e.source().index(), e.target().index(), e.weight)
}

/// Assigning through a graph indexed by an edge index: the weight of that
/// edge is replaced; its ends and everything else stay.
#[verifier::external_body]
fn graph_set_edge_weight(g: &mut Graph<NodeInfo, EdgeKind, Directed, u32>, j: usize, w: EdgeKind)
    requires
        j < graph_edges(*old(g)).len(),
        graph_edges(*old(g)).len() <= INDEX_LIMIT,
    ensures
        graph_nodes(*final(g)) == graph_nodes(*old(g)),
        graph_edges(*final(g)) == graph_edges(*old(g)).update(
            j as int,
            (graph_edges(*old(g))[j as int].0, graph_edges(*old(g))[j as int].1, w),
        ),
{
    g[EdgeIndex::new(j)] = w;
}

/// The targets of the edges that leave `a`, in the order in which the edges
/// were added.
pub open spec fn successors_of(edges: Seq<EdgeModel>, a: int) -> Seq<int>
    decreases edges.len(),
{
    if edges.len() == 0 {
        Seq::empty()
    } else if edges.last().src == a {
        successors_of(edges.drop_last(), a).push(edges.last().dst)
    } else {
        successors_of(edges.drop_last(), a)
    }
}

/// An edge of the graph as mathematical data.
pub open spec fn edge_model(e: (usize, usize, EdgeKind)) -> EdgeModel {
    EdgeModel { src: e.0 as int, dst: e.1 as int, kind: e.2 }
}

/// The edges of the graph as mathematical data.
pub open spec fn edge_models(edges: Seq<(usize, usize, EdgeKind)>) -> Seq<EdgeModel> {
    Seq::new(edges.len(), |i: int| edge_model(edges[i]))
}

/// The nodes of the graph as mathematical data.
pub open spec fn node_models(nodes: Seq<NodeInfo>) -> Seq<NodeModel> {
    Seq::new(nodes.len(), |i: int| nodes[i]@)
}

proof fn lemma_successors_reverse(edges: Seq<(usize, usize, EdgeKind)>, a: usize)
    ensures
        successors_of(edge_models(edges), a as int) == Seq::new(
            targets_newest_first(edges, a).len(),
            |i: int|
                targets_newest_first(edges, a)[targets_newest_first(edges, a).len() - 1 - i] as int,
        ),
    decreases edges.len(),
{
    let m = edge_models(edges);
    if edges.len() > 0 {
        lemma_successors_reverse(edges.drop_last(), a);
        assert(m.drop_last() =~= edge_models(edges.drop_last()));
    }
}

impl CfgModel {
    /// The ends of every edge are nodes of the graph.
    pub open spec fn closed(self) -> bool {
        forall|j: int|
            0 <= j < self.edges.len() ==> 0 <= (#[trigger] self.edges[j]).src < self.nodes.len()
                && 0 <= self.edges[j].dst < self.nodes.len()
    }

    /// The successors of node `a`, in the order in which the edges were added.
    pub open spec fn successors(self, a: int) -> Seq<int> {
        successors_of(self.edges, a)
    }
}

/// Every successor of a node of a closed graph is a node of the graph.
pub proof fn lemma_successors_in_range(m: CfgModel, a: int)
    requires
        m.closed(),
    ensures
        forall|k: int|
            0 <= k < m.successors(a).len() ==> 0 <= #[trigger] m.successors(a)[k] < m.nodes.len(),
    decreases m.edges.len(),
{
    if m.edges.len() > 0 {
        let rest = CfgModel { nodes: m.nodes, edges: m.edges.drop_last() };
        lemma_successors_in_range(rest, a);
        assert forall|k: int| 0 <= k < m.successors(a).len() implies 0
            <= #[trigger] m.successors(a)[k] < m.nodes.len() by {
            assert(k < rest.successors(a).len() || m.successors(a)[k] == m.edges.last().dst);
        }
    }
}

/// A control-flow graph. Nodes and edges are addressed by index; both are
/// only ever added.
pub struct Cfg {
    graph: Graph<NodeInfo, EdgeKind, Directed, u32>,
}

impl View for Cfg {
    type V = CfgModel;

    closed spec fn view(&self) -> CfgModel {
        CfgModel {
            nodes: node_models(graph_nodes(self.graph)),
            edges: edge_models(graph_edges(self.graph)),
        }
    }
}

impl Cfg {
    /// The graph is within the index limit and its edges join its nodes.
    pub open spec fn wf(&self) -> bool {
        &&& self@.nodes.len() <= INDEX_LIMIT
        &&& self@.edges.len() <= INDEX_LIMIT
        &&& self@.closed()
    }

    /// A graph without nodes and edges.
    pub fn new() -> (g: Cfg)
        ensures
            g.wf(),
            g@.nodes.len() == 0,
            g@.edges.len() == 0,
    {
        Cfg { graph: graph_new() }
    }

    /// The number of nodes.
    pub fn node_count(&self) -> (n: usize)
        ensures
            n == self@.nodes.len(),
    {
        graph_node_count(&self.graph)
    }

    /// The number of edges.
    pub fn edge_count(&self) -> (n: usize)
        ensures
            n == self@.edges.len(),
    {
        graph_edge_count(&self.graph)
    }

    /// Adds a node and returns its index.
    pub fn add_node(&mut self, info: NodeInfo) -> (i: usize)
        requires
            old(self).wf(),
            old(self)@.nodes.len() < INDEX_LIMIT,
        ensures
            final(self).wf(),
            final(self)@.nodes == old(self)@.nodes.push(info@),
            final(self)@.edges == old(self)@.edges,
            i == old(self)@.nodes.len(),
    {
        let i = graph_add_node(&mut self.graph, info);
        i
    }

    /// Adds an edge from `a` to `b`.
    pub fn add_edge(&mut self, a: usize, b: usize, kind: EdgeKind)
        requires
            old(self).wf(),
            a < old(self)@.nodes.len(),
            b < old(self)@.nodes.len(),
            old(self)@.edges.len() < INDEX_LIMIT,
        ensures
            final(self).wf(),
            final(self)@.nodes == old(self)@.nodes,
            final(self)@.edges == old(self)@.edges.push(
                EdgeModel { src: a as int, dst: b as int, kind },
            ),
    {
        graph_add_edge(&mut self.graph, a, b, kind);
        assert(self@.edges =~= old(self)@.edges.push(
            EdgeModel { src: a as int, dst: b as int, kind },
        ));
    }

    /// Gives the edge at index `j` the kind `kind`.
    pub fn set_edge_kind(&mut self, j: usize, kind: EdgeKind)
        requires
            old(self).wf(),
            j < old(self)@.edges.len(),
        ensures
            final(self).wf(),
            final(self)@.nodes == old(self)@.nodes,
            final(self)@.edges == old(self)@.edges.update(
                j as int,
                EdgeModel {
                    src: old(self)@.edges[j as int].src,
                    dst: old(self)@.edges[j as int].dst,
                    kind,
                },
            ),
    {
        graph_set_edge_weight(&mut self.graph, j, kind);
        assert(self@.edges =~= old(self)@.edges.update(
            j as int,
            EdgeModel {
                src: old(self)@.edges[j as int].src,
                dst: old(self)@.edges[j as int].dst,
                kind,
            },
        ));
    }

    /// The node at index `i`.
    pub fn node(&self, i: usize) -> (info: &NodeInfo)
        requires
            self.wf(),
            i < self@.nodes.len(),
        ensures
            info@ == self@.nodes[i as int],
    {
        graph_node(&self.graph, i)
    }

    /// The edge at index `j`: source, target and kind.
    pub fn edge(&self, j: usize) -> (e: (usize, usize, EdgeKind))
        requires
            j < self@.edges.len(),
        ensures
            self@.edges[j as int] == (EdgeModel { src: e.0 as int, dst: e.1 as int, kind: e.2 }),
    {
        graph_edge(&self.graph, j)
    }

    /// The successors of node `a`, in the order in which the edges were
    /// added.
    pub fn successors(&self, a: usize) -> (r: Vec<usize>)
        requires
            self.wf(),
            a < self@.nodes.len(),
        ensures
            r@.len() == self@.successors(a as int).len(),
            forall|k: int| 0 <= k < r@.len() ==> r@[k] as int == self@.successors(a as int)[k],
            forall|k: int| 0 <= k < r@.len() ==> r@[k] < self@.nodes.len(),
    {
        let rev = graph_neighbors(&self.graph, a);
        proof {
            lemma_successors_reverse(graph_edges(self.graph), a);
            lemma_successors_in_range(self@, a as int);
        }
        let n = rev.len();
        let mut r: Vec<usize> = Vec::new();
        let mut i: usize = 0;
        while i < n
            invariant
                i <= n,
                n == rev@.len(),
                r@.len() == i,
                forall|k: int| 0 <= k < i ==> r@[k] == rev@[n - 1 - k],
            decreases n - i,
        {
            r.push(rev[n - 1 - i]);
            i += 1;
        }
        proof {
            assert forall|k: int| 0 <= k < r@.len() implies r@[k] < self@.nodes.len() by {
                assert(r@[k] as int == self@.successors(a as int)[k]);
            }
        }
        r
    }
}

} // verus!
